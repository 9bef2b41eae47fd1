//! The messages and events of the network layer, and the decisions of its
//! event loop: which discovered peers are new, which expired ones were known,
//! and what each publish and each received payload is reported as.
use vstd::prelude::*;
use vstd::string::*;
use vstd::utf8::*;

use crate::peer_set::{ids_of, PeerSet};

verus! {

/// The gossip topic that clipboard updates travel on.
pub const CLIPBOARD_TOPIC: &'static str = "clippy-share/clipboard/v1";

/// How many commands may wait for the network loop.
pub const COMMAND_CHANNEL_SIZE: usize = 64;

/// How many events may wait for the daemon.
pub const EVENT_CHANNEL_SIZE: usize = 128;

/// A clipboard update as it travels between devices.
#[derive(Debug, Clone)]
pub struct ClipboardMessage {
    pub text: String,
    pub source_device: String,
    /// The peers that should apply it; none means every peer.
    pub target_peer_ids: Vec<String>,
    /// When it was sent, in milliseconds since the Unix epoch.
    pub sent_at_ms: u128,
}

/// A clipboard update as a value.
pub struct ClipboardMessageView {
    pub text: Seq<char>,
    pub source_device: Seq<char>,
    pub target_peer_ids: Seq<Seq<char>>,
    pub sent_at_ms: u128,
}

impl View for ClipboardMessage {
    type V = ClipboardMessageView;

    open spec fn view(&self) -> ClipboardMessageView {
        ClipboardMessageView {
            text: self.text@,
            source_device: self.source_device@,
            target_peer_ids: ids_of(self.target_peer_ids@),
            sent_at_ms: self.sent_at_ms,
        }
    }
}

/// `std::time::SystemTime`, carried through opaque.
#[verifier::external_type_specification]
#[verifier::external_body]
pub struct ExSystemTime(std::time::SystemTime);

/// `SystemTime::now`: the current time by the system clock. Nothing is stated
/// of it.
#[verifier::external_body]
fn system_now() -> std::time::SystemTime {
    std::time::SystemTime::now()
}

/// `SystemTime::duration_since(UNIX_EPOCH)`: how long after the Unix epoch
/// `t` is, `None` where `t` is before it. Nothing is stated of the duration.
#[verifier::external_body]
fn since_unix_epoch(t: &std::time::SystemTime) -> Option<std::time::Duration> {
    t.duration_since(std::time::UNIX_EPOCH).ok()
}

/// `Duration::as_millis`: the whole milliseconds of `d`. Nothing is stated of
/// the number.
#[verifier::external_body]
fn whole_millis(d: &std::time::Duration) -> u128 {
    d.as_millis()
}

/// Milliseconds since the Unix epoch by the system clock, 0 where the clock
/// stands before the epoch.
fn unix_time_ms() -> u128 {
    let now = system_now();
    match since_unix_epoch(&now) {
        Some(elapsed) => whole_millis(&elapsed),
        None => 0,
    }
}

impl ClipboardMessage {
    /// A message stamped with the given send time.
    pub fn stamped(
        text: String,
        source_device: String,
        target_peer_ids: Vec<String>,
        sent_at_ms: u128,
    ) -> (r: ClipboardMessage)
        ensures
            r.text == text,
            r.source_device == source_device,
            r.target_peer_ids == target_peer_ids,
            r.sent_at_ms == sent_at_ms,
    {
        ClipboardMessage { text, source_device, target_peer_ids, sent_at_ms }
    }

    /// A message stamped with the current time.
    pub fn new(text: String, source_device: String, target_peer_ids: Vec<String>) -> (r:
        ClipboardMessage)
        ensures
            r.text == text,
            r.source_device == source_device,
            r.target_peer_ids == target_peer_ids,
    {
        let now: u128 = unix_time_ms();
        ClipboardMessage::stamped(text, source_device, target_peer_ids, now)
    }
}

/// What the network layer reports to the daemon.
#[derive(Debug, Clone)]
pub enum NetEvent {
    Started { local_peer_id: String },
    Listening { address: String },
    PeerDiscovered { peer_id: String },
    PeerExpired { peer_id: String },
    ClipboardReceived { from_peer: String, message: ClipboardMessage },
    Published { bytes: usize },
    Error { message: String },
}

/// A network event as a value.
pub enum NetEventView {
    Started { local_peer_id: Seq<char> },
    Listening { address: Seq<char> },
    PeerDiscovered { peer_id: Seq<char> },
    PeerExpired { peer_id: Seq<char> },
    ClipboardReceived { from_peer: Seq<char>, message: ClipboardMessageView },
    Published { bytes: usize },
    Error { message: Seq<char> },
}

impl View for NetEvent {
    type V = NetEventView;

    open spec fn view(&self) -> NetEventView {
        match self {
            NetEvent::Started { local_peer_id } => NetEventView::Started {
                local_peer_id: local_peer_id@,
            },
            NetEvent::Listening { address } => NetEventView::Listening { address: address@ },
            NetEvent::PeerDiscovered { peer_id } => NetEventView::PeerDiscovered {
                peer_id: peer_id@,
            },
            NetEvent::PeerExpired { peer_id } => NetEventView::PeerExpired { peer_id: peer_id@ },
            NetEvent::ClipboardReceived { from_peer, message } => NetEventView::ClipboardReceived {
                from_peer: from_peer@,
                message: message@,
            },
            NetEvent::Published { bytes } => NetEventView::Published { bytes: *bytes },
            NetEvent::Error { message } => NetEventView::Error { message: message@ },
        }
    }
}

/// A failure of the network layer.
#[derive(Debug, Clone)]
pub enum NetError {
    /// Setting up the network failed, for the reason given.
    Setup(String),
    /// The network loop no longer takes commands.
    CommandChannelClosed,
}

/// The text of a network error.
pub open spec fn net_error_text(e: NetError) -> Seq<char> {
    match e {
        NetError::Setup(reason) => "network setup failed: "@ + reason@,
        NetError::CommandChannelClosed => "network command queue is closed"@,
    }
}

impl NetError {
    /// The error as it is displayed.
    pub fn to_string(&self) -> (r: String)
        ensures
            r@ == net_error_text(*self),
    {
        match self {
            NetError::Setup(reason) => String::from_str("network setup failed: ").concat(
                reason.as_str(),
            ),
            NetError::CommandChannelClosed => String::from_str("network command queue is closed"),
        }
    }
}

/// What the daemon asks of the network loop.
#[derive(Debug)]
pub enum NetCommand {
    /// Publish a clipboard update.
    Broadcast(ClipboardMessage),
    /// Stop the loop.
    Shutdown,
}

/// The report for a publish of `message`, given the publish error if any.
/// The byte count is that of the text's UTF-8 encoding, `String::len`.
pub fn publish_outcome(message: &ClipboardMessage, publish_error: Option<String>) -> (r: NetEvent)
    ensures
        r@ == match publish_error {
            None => NetEventView::Published { bytes: encode_utf8(message.text@).len() as usize },
            Some(e) => NetEventView::Error { message: "publish failed: "@ + e@ },
        },
{
    match publish_error {
        None => NetEvent::Published { bytes: message.text.as_str().len() },
        Some(e) => NetEvent::Error {
            message: String::from_str("publish failed: ").concat(e.as_str()),
        },
    }
}

/// The report when a message could not be encoded for sending.
pub fn serialization_failed(error: String) -> (r: NetEvent)
    ensures
        r@ == (NetEventView::Error { message: "serialization failed: "@ + error@ }),
{
    NetEvent::Error { message: String::from_str("serialization failed: ").concat(error.as_str()) }
}

/// The report for a payload received from `from_peer`: the message where it
/// could be read, else the reason it could not.
pub fn received_outcome(from_peer: String, parsed: Result<ClipboardMessage, String>) -> (r:
    NetEvent)
    ensures
        r@ == match parsed {
            Ok(m) => NetEventView::ClipboardReceived { from_peer: from_peer@, message: m@ },
            Err(e) => NetEventView::Error {
                message: "failed to parse clipboard message: "@ + e@,
            },
        },
{
    match parsed {
        Ok(message) => NetEvent::ClipboardReceived { from_peer, message },
        Err(e) => NetEvent::Error {
            message: String::from_str("failed to parse clipboard message: ").concat(e.as_str()),
        },
    }
}

/// The peers that a batch of discoveries adds to `known`, in order, each once.
pub open spec fn newly_known(known: Seq<Seq<char>>, batch: Seq<Seq<char>>) -> Seq<Seq<char>>
    decreases batch.len(),
{
    if batch.len() == 0 {
        seq![]
    } else {
        let before = newly_known(known, batch.drop_last());
        let p = batch.last();
        if known.contains(p) || before.contains(p) {
            before
        } else {
            before.push(p)
        }
    }
}

/// The peers that a batch of expiries takes out of `known`, in order, each once.
pub open spec fn no_longer_known(known: Seq<Seq<char>>, batch: Seq<Seq<char>>) -> Seq<Seq<char>>
    decreases batch.len(),
{
    if batch.len() == 0 {
        seq![]
    } else {
        let before = no_longer_known(known, batch.drop_last());
        let p = batch.last();
        if known.contains(p) && !before.contains(p) {
            before.push(p)
        } else {
            before
        }
    }
}

/// Takes every element of `gone` out of `s`, one after another.
pub open spec fn remove_all(s: Seq<Seq<char>>, gone: Seq<Seq<char>>) -> Seq<Seq<char>>
    decreases gone.len(),
{
    if gone.len() == 0 {
        s
    } else {
        remove_all(s, gone.drop_last()).remove_value(gone.last())
    }
}

/// The peers that the network loop currently knows of.
pub struct SwarmPeers {
    known: PeerSet,
}

impl View for SwarmPeers {
    type V = Seq<Seq<char>>;

    closed spec fn view(&self) -> Seq<Seq<char>> {
        self.known@
    }
}

impl SwarmPeers {
    #[verifier::type_invariant]
    spec fn known_once(&self) -> bool {
        self.known@.no_duplicates()
    }

    /// No peer known.
    pub fn new() -> (r: SwarmPeers)
        ensures
            r@ == Seq::<Seq<char>>::empty(),
    {
        SwarmPeers { known: PeerSet::new() }
    }

    /// Whether `peer_id` is known.
    pub fn knows(&self, peer_id: &str) -> (r: bool)
        ensures
            r == self@.contains(peer_id@),
    {
        self.known.contains(peer_id)
    }

    /// Records a batch of discovered peers; answers those that were not known
    /// before, in order and each once. They are now known; no other peer is
    /// added.
    pub fn on_discovered(&mut self, peers: Vec<String>) -> (added: Vec<String>)
        ensures
            ids_of(added@) == newly_known(old(self)@, ids_of(peers@)),
            final(self)@ == old(self)@ + ids_of(added@),
            final(self)@.no_duplicates(),
    {
        proof {
            use_type_invariant(&*self);
        }
        let ghost start = self@;
        let mut known = PeerSet::new();
        std::mem::swap(&mut known, &mut self.known);
        let mut added: Vec<String> = Vec::new();
        let n: usize = peers.len();
        let mut i: usize = 0;
        while i < n
            invariant
                n == peers@.len(),
                i <= n,
                ids_of(added@) == newly_known(start, ids_of(peers@).subrange(0, i as int)),
                known@ == start + ids_of(added@),
                known@.no_duplicates(),
            decreases n - i,
        {
            let ghost prefix = ids_of(peers@).subrange(0, i as int);
            let ghost next = ids_of(peers@).subrange(0, i + 1);
            assert(next.drop_last() =~= prefix);
            let peer = peers[i].clone();
            proof {
                let before = newly_known(start, prefix);
                assert(known@.contains(peer@) <==> start.contains(peer@) || before.contains(peer@))
                    by {
                    if before.contains(peer@) {
                        let k = choose|k: int| 0 <= k < before.len() && before[k] == peer@;
                        assert((start + before)[start.len() + k] == peer@);
                    }
                    if start.contains(peer@) {
                        let k = choose|k: int| 0 <= k < start.len() && start[k] == peer@;
                        assert((start + before)[k] == peer@);
                    }
                };
            }
            let fresh = known.insert(peer.clone());
            if fresh {
                added.push(peer);
                proof {
                    assert(ids_of(added@) =~= newly_known(start, prefix).push(peer@));
                }
            }
            assert(start + ids_of(added@) =~= known@) by {
                assert(ids_of(added@) =~= newly_known(start, next));
            };
            i = i + 1;
        }
        assert(ids_of(peers@).subrange(0, n as int) =~= ids_of(peers@));
        self.known = known;
        added
    }

    /// Records a batch of expired peers; answers those that were known, in
    /// order and each once. They are no longer known; no other peer leaves.
    pub fn on_expired(&mut self, peers: Vec<String>) -> (removed: Vec<String>)
        ensures
            ids_of(removed@) == no_longer_known(old(self)@, ids_of(peers@)),
            final(self)@ == remove_all(old(self)@, ids_of(peers@)),
            final(self)@.no_duplicates(),
    {
        proof {
            use_type_invariant(&*self);
        }
        let ghost start = self@;
        let mut known = PeerSet::new();
        std::mem::swap(&mut known, &mut self.known);
        let mut removed: Vec<String> = Vec::new();
        let n: usize = peers.len();
        let mut i: usize = 0;
        while i < n
            invariant
                n == peers@.len(),
                i <= n,
                ids_of(removed@) == no_longer_known(start, ids_of(peers@).subrange(0, i as int)),
                known@ == remove_all(start, ids_of(peers@).subrange(0, i as int)),
                known@.no_duplicates(),
                start.no_duplicates(),
                forall|p: Seq<char>|
                    #[trigger] known@.contains(p) <==> start.contains(p) && !ids_of(
                        peers@,
                    ).subrange(0, i as int).contains(p),
                forall|p: Seq<char>|
                    #[trigger] ids_of(removed@).contains(p) <==> start.contains(p) && ids_of(
                        peers@,
                    ).subrange(0, i as int).contains(p),
            decreases n - i,
        {
            let ghost prefix = ids_of(peers@).subrange(0, i as int);
            let ghost next = ids_of(peers@).subrange(0, i + 1);
            assert(next.drop_last() =~= prefix);
            let peer = peers[i].clone();
            let ghost before_removal = known@;
            let gone = known.remove(peer.as_str());
            proof {
                before_removal.index_of_first_ensures(peer@);
            }
            proof {
                assert forall|q: Seq<char>| #[trigger] next.contains(q) <==> prefix.contains(q) || q
                    == peer@ by {
                    if next.contains(q) {
                        let k = choose|k: int| 0 <= k < next.len() && next[k] == q;
                        if k < prefix.len() {
                            assert(prefix[k] == q);
                        }
                    }
                    if prefix.contains(q) {
                        let k = choose|k: int| 0 <= k < prefix.len() && prefix[k] == q;
                        assert(next[k] == q);
                    }
                    if q == peer@ {
                        assert(next[i as int] == q);
                    }
                }
            }
            let ghost removed_before = ids_of(removed@);
            if gone {
                removed.push(peer);
                proof {
                    assert(ids_of(removed@) =~= removed_before.push(peer@));
                }
            }
            proof {
                assert forall|q: Seq<char>| #[trigger] ids_of(removed@).contains(q) <==> start.contains(q)
                    && next.contains(q) by {
                    if gone && ids_of(removed@).contains(q) && q != peer@ {
                        let k = choose|k: int| 0 <= k < ids_of(removed@).len() && ids_of(removed@)[k] == q;
                        assert(removed_before[k] == q);
                    }
                    if gone && removed_before.contains(q) {
                        let k = choose|k: int| 0 <= k < removed_before.len() && removed_before[k] == q;
                        assert(ids_of(removed@)[k] == q);
                    }
                    if gone && q == peer@ {
                        assert(ids_of(removed@)[removed_before.len() as int] == q);
                    }
                }
            }
            i = i + 1;
        }
        assert(ids_of(peers@).subrange(0, n as int) =~= ids_of(peers@));
        self.known = known;
        removed
    }
}

proof fn lemma_newly_known(known: Seq<Seq<char>>, batch: Seq<Seq<char>>)
    ensures
        newly_known(known, batch).no_duplicates(),
        forall|p: Seq<char>|
            #[trigger] newly_known(known, batch).contains(p) <==> batch.contains(p)
                && !known.contains(p),
    decreases batch.len(),
{
    if batch.len() > 0 {
        let init = batch.drop_last();
        let last = batch.last();
        lemma_newly_known(known, init);
        let before = newly_known(known, init);
        let cur = newly_known(known, batch);
        assert forall|p: Seq<char>| #[trigger] cur.contains(p) <==> batch.contains(p) && !known.contains(p) by {
            if batch.contains(p) {
                let k = choose|k: int| 0 <= k < batch.len() && batch[k] == p;
                if k < init.len() {
                    assert(init[k] == p);
                }
            }
            if init.contains(p) {
                let k = choose|k: int| 0 <= k < init.len() && init[k] == p;
                assert(batch[k] == p);
            }
            if cur.contains(p) && !before.contains(p) {
                let k = choose|k: int| 0 <= k < cur.len() && cur[k] == p;
                assert(k == before.len());
            }
            if before.contains(p) {
                let k = choose|k: int| 0 <= k < before.len() && before[k] == p;
                assert(cur[k] == p);
            }
            if cur != before && p == last {
                assert(cur[before.len() as int] == p);
            }
        }
    }
}

proof fn lemma_no_longer_known(known: Seq<Seq<char>>, batch: Seq<Seq<char>>)
    ensures
        no_longer_known(known, batch).no_duplicates(),
        forall|p: Seq<char>|
            #[trigger] no_longer_known(known, batch).contains(p) <==> batch.contains(p)
                && known.contains(p),
    decreases batch.len(),
{
    if batch.len() > 0 {
        let init = batch.drop_last();
        let last = batch.last();
        lemma_no_longer_known(known, init);
        let before = no_longer_known(known, init);
        let cur = no_longer_known(known, batch);
        assert forall|p: Seq<char>| #[trigger] cur.contains(p) <==> batch.contains(p) && known.contains(p) by {
            if batch.contains(p) {
                let k = choose|k: int| 0 <= k < batch.len() && batch[k] == p;
                if k < init.len() {
                    assert(init[k] == p);
                }
            }
            if init.contains(p) {
                let k = choose|k: int| 0 <= k < init.len() && init[k] == p;
                assert(batch[k] == p);
            }
            if cur.contains(p) && !before.contains(p) {
                let k = choose|k: int| 0 <= k < cur.len() && cur[k] == p;
                assert(k == before.len());
            }
            if before.contains(p) {
                let k = choose|k: int| 0 <= k < before.len() && before[k] == p;
                assert(cur[k] == p);
            }
            if cur != before && p == last {
                assert(cur[before.len() as int] == p);
            }
        }
    }
}

proof fn lemma_remove_all(known: Seq<Seq<char>>, batch: Seq<Seq<char>>)
    requires
        known.no_duplicates(),
    ensures
        remove_all(known, batch).no_duplicates(),
        forall|p: Seq<char>|
            #[trigger] remove_all(known, batch).contains(p) <==> known.contains(p)
                && !batch.contains(p),
    decreases batch.len(),
{
    if batch.len() > 0 {
        let init = batch.drop_last();
        let last = batch.last();
        lemma_remove_all(known, init);
        let before = remove_all(known, init);
        before.index_of_first_ensures(last);
        let cur = remove_all(known, batch);
        assert(cur == before.remove_value(last));
        if before.contains(last) {
            let i = before.index_of_first(last).unwrap();
            assert(cur == before.remove(i));
            assert forall|a: int, b: int| 0 <= a < b < cur.len() implies cur[a] != cur[b] by {
                let a2 = if a < i { a } else { a + 1 };
                let b2 = if b < i { b } else { b + 1 };
                assert(cur[a] == before[a2]);
                assert(cur[b] == before[b2]);
            }
        }
        assert forall|p: Seq<char>| #[trigger] cur.contains(p) <==> known.contains(p) && !batch.contains(p) by {
            if batch.contains(p) {
                let k = choose|k: int| 0 <= k < batch.len() && batch[k] == p;
                if k < init.len() {
                    assert(init[k] == p);
                }
            }
            if init.contains(p) {
                let k = choose|k: int| 0 <= k < init.len() && init[k] == p;
                assert(batch[k] == p);
            }
            if before.contains(last) {
                let i = before.index_of_first(last).unwrap();
                if cur.contains(p) {
                    let k = choose|k: int| 0 <= k < cur.len() && cur[k] == p;
                    if k < i {
                        assert(before[k] == p);
                    } else {
                        assert(before[k + 1] == p);
                    }
                }
                if before.contains(p) && p != last {
                    let k = choose|k: int| 0 <= k < before.len() && before[k] == p;
                    if k < i {
                        assert(cur[k] == p);
                    } else {
                        assert(cur[k - 1] == p);
                    }
                }
            }
        }
    }
}

/// A batch of discoveries reports exactly the peers in it that were not
/// known, each once; afterwards every peer of the batch is known.
pub proof fn law_discovery_reports_new_peers(known: Seq<Seq<char>>, batch: Seq<Seq<char>>)
    ensures
        newly_known(known, batch).no_duplicates(),
        forall|p: Seq<char>|
            #[trigger] newly_known(known, batch).contains(p) <==> batch.contains(p)
                && !known.contains(p),
        forall|p: Seq<char>|
            batch.contains(p) ==> #[trigger] (known + newly_known(known, batch)).contains(p),
{
    lemma_newly_known(known, batch);
    assert forall|p: Seq<char>| batch.contains(p) implies #[trigger] (known + newly_known(
        known,
        batch,
    )).contains(p) by {
        let added = newly_known(known, batch);
        if known.contains(p) {
            let k = choose|k: int| 0 <= k < known.len() && known[k] == p;
            assert((known + added)[k] == p);
        } else {
            assert(newly_known(known, batch).contains(p));
            let k = choose|k: int| 0 <= k < added.len() && added[k] == p;
            assert((known + added)[known.len() + k] == p);
        }
    }
}

/// A batch of expiries reports exactly the peers in it that were known, each
/// once; afterwards none of them is known, and every other known peer still is.
pub proof fn law_expiry_reports_known_peers(known: Seq<Seq<char>>, batch: Seq<Seq<char>>)
    requires
        known.no_duplicates(),
    ensures
        no_longer_known(known, batch).no_duplicates(),
        forall|p: Seq<char>|
            #[trigger] no_longer_known(known, batch).contains(p) <==> batch.contains(p)
                && known.contains(p),
        forall|p: Seq<char>|
            #[trigger] remove_all(known, batch).contains(p) <==> known.contains(p)
                && !batch.contains(p),
{
    lemma_no_longer_known(known, batch);
    lemma_remove_all(known, batch);
}

/// A peer that expired is reported again when it is discovered again.
pub proof fn law_rediscovery_reported(known: Seq<Seq<char>>, peer: Seq<char>)
    requires
        known.no_duplicates(),
    ensures
        newly_known(remove_all(known, seq![peer]), seq![peer]) == seq![peer],
{
    lemma_remove_all(known, seq![peer]);
    assert(seq![peer][0] == peer);
    let rest = remove_all(known, seq![peer]);
    assert(seq![peer].drop_last() =~= Seq::<Seq<char>>::empty());
    assert(newly_known(rest, Seq::<Seq<char>>::empty()) == Seq::<Seq<char>>::empty());
    assert(newly_known(rest, seq![peer]) =~= seq![peer]);
}

} // verus!
