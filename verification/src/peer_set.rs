//! A set of peer identifiers: no identifier occurs twice, and the identifiers
//! are kept in the order in which they first arrived.
use vstd::prelude::*;
use vstd::string::*;

verus! {

/// The identifiers of a `Vec<String>`, each taken by its view.
pub open spec fn ids_of(v: Seq<String>) -> Seq<Seq<char>> {
    v.map_values(|p: String| p@)
}

/// A set of peer identifiers.
pub struct PeerSet {
    peers: Vec<String>,
}

impl View for PeerSet {
    type V = Seq<Seq<char>>;

    closed spec fn view(&self) -> Seq<Seq<char>> {
        ids_of(self.peers@)
    }
}

impl PeerSet {
    #[verifier::type_invariant]
    spec fn no_repeats(&self) -> bool {
        ids_of(self.peers@).no_duplicates()
    }

    /// The empty set.
    pub fn new() -> (r: PeerSet)
        ensures
            r@ == Seq::<Seq<char>>::empty(),
            r@.no_duplicates(),
    {
        let r = PeerSet { peers: Vec::new() };
        assert(r@ =~= Seq::<Seq<char>>::empty());
        r
    }

    /// The number of identifiers.
    pub fn len(&self) -> (n: usize)
        ensures
            n == self@.len(),
    {
        self.peers.len()
    }

    /// Whether the set is empty.
    pub fn is_empty(&self) -> (r: bool)
        ensures
            r == (self@.len() == 0),
    {
        self.peers.len() == 0
    }

    /// Where `peer` stands, if it is in the set.
    fn position(&self, peer: &str) -> (r: Option<usize>)
        ensures
            match r {
                Some(i) => i < self@.len() && self@[i as int] == peer@,
                None => !self@.contains(peer@),
            },
    {
        let key = String::from_str(peer);
        let n: usize = self.peers.len();
        let mut i: usize = 0;
        while i < n
            invariant
                n == self.peers@.len(),
                key@ == peer@,
                i <= n,
                forall|j: int| 0 <= j < i ==> self@[j] != peer@,
            decreases n - i,
        {
            if self.peers[i] == key {
                return Some(i);
            }
            i = i + 1;
        }
        None
    }

    /// Whether `peer` is in the set.
    pub fn contains(&self, peer: &str) -> (r: bool)
        ensures
            r == self@.contains(peer@),
    {
        self.position(peer).is_some()
    }

    /// Adds `peer`; answers whether it was new. An identifier already present
    /// leaves the set as it was.
    pub fn insert(&mut self, peer: String) -> (added: bool)
        ensures
            added == !old(self)@.contains(peer@),
            final(self)@ == (if added { old(self)@.push(peer@) } else { old(self)@ }),
            final(self)@.no_duplicates(),
    {
        proof {
            use_type_invariant(&*self);
        }
        if self.contains(peer.as_str()) {
            false
        } else {
            let ghost before = self@;
            let mut peers = self.peers.clone();
            assert(ids_of(peers@) =~= before);
            peers.push(peer);
            assert(ids_of(peers@) =~= before.push(peer@));
            self.peers = peers;
            true
        }
    }

    /// Takes `peer` out; answers whether it was there.
    pub fn remove(&mut self, peer: &str) -> (removed: bool)
        ensures
            removed == old(self)@.contains(peer@),
            final(self)@ == old(self)@.remove_value(peer@),
            final(self)@.no_duplicates(),
            forall|q: Seq<char>| #[trigger] final(self)@.contains(q) <==> old(self)@.contains(q) && q
                != peer@,
    {
        proof {
            use_type_invariant(&*self);
        }
        match self.position(peer) {
            None => {
                proof {
                    self@.index_of_first_ensures(peer@);
                }
                false
            },
            Some(i) => {
                let ghost before = self@;
                proof {
                    before.index_of_first_ensures(peer@);
                }
                let mut peers = self.peers.clone();
                assert(ids_of(peers@) =~= before);
                peers.remove(i);
                assert(ids_of(peers@) =~= before.remove(i as int));
                self.peers = peers;
                proof {
                    assert forall|q: Seq<char>| #[trigger] self@.contains(q) <==> before.contains(q)
                        && q != peer@ by {
                        if self@.contains(q) {
                            let k = choose|k: int| 0 <= k < self@.len() && self@[k] == q;
                            if k < i {
                                assert(before[k] == q);
                            } else {
                                assert(before[k + 1] == q);
                            }
                        }
                        if before.contains(q) && q != peer@ {
                            let k = choose|k: int| 0 <= k < before.len() && before[k] == q;
                            if k < i {
                                assert(self@[k] == q);
                            } else {
                                assert(self@[k - 1] == q);
                            }
                        }
                    }
                }
                true
            },
        }
    }

    /// The identifiers, in the order in which they arrived.
    pub fn to_vec(&self) -> (r: Vec<String>)
        ensures
            ids_of(r@) == self@,
            self@.no_duplicates(),
    {
        proof {
            use_type_invariant(self);
        }
        let r = self.peers.clone();
        assert(ids_of(r@) =~= self@);
        r
    }
}

} // verus!
