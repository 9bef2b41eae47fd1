//! Clipboard sharing between devices on one network: the decisions of the
//! daemon, its policy, the peer bookkeeping of the network layer and the
//! clipboard classification of the platform adapters.
pub mod text;
pub mod peer_set;
pub mod policy;
pub mod platform;
pub mod net;
pub mod daemon;
pub mod crypto;
pub mod bridge;
pub mod cli;
