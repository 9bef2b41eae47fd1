//! The encryption stage of the transport; for now it hands data on as it is.
use vstd::prelude::*;
use vstd::slice::slice_to_vec;

verus! {

/// What the current engine makes of data it encrypts: the data itself.
pub open spec fn encrypted(data: Seq<u8>) -> Seq<u8> {
    data
}

/// What the current engine makes of data it decrypts: the data itself.
pub open spec fn decrypted(data: Seq<u8>) -> Seq<u8> {
    data
}

/// The encryption engine.
pub struct CryptoEngine;

impl CryptoEngine {
    /// The engine.
    pub fn new() -> (r: CryptoEngine)
        ensures
            r == CryptoEngine,
    {
        CryptoEngine
    }

    /// Encrypts `data`; the current engine hands it back unchanged.
    pub fn encrypt(&self, data: &[u8]) -> (r: Vec<u8>)
        ensures
            r@ == encrypted(data@),
    {
        slice_to_vec(data)
    }

    /// Decrypts `data`; the current engine hands it back unchanged.
    pub fn decrypt(&self, data: &[u8]) -> (r: Vec<u8>)
        ensures
            r@ == decrypted(data@),
    {
        slice_to_vec(data)
    }
}

/// Decrypting what was encrypted gives the data back.
pub proof fn law_round_trip(data: Seq<u8>)
    ensures
        decrypted(encrypted(data)) == data,
{
}

} // verus!
