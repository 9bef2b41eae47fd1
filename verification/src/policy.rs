//! Which clipboard messages this device applies, and to whom it sends its own.
use vstd::prelude::*;
use vstd::string::*;

use crate::peer_set::{ids_of, PeerSet};
use crate::text::{
    is_white_space, lemma_split_pieces, lemma_split_single, lemma_trim_shape, split, split_from, trim, trim_offset,
    trim_to_string,
};

verus! {

/// The peer identifiers that a comma-separated list names, each trimmed of
/// white space, empty ones dropped, each kept once in order of first mention.
pub open spec fn collect_peers(pieces: Seq<Seq<char>>) -> Seq<Seq<char>>
    decreases pieces.len(),
{
    if pieces.len() == 0 {
        seq![]
    } else {
        let prev = collect_peers(pieces.drop_last());
        let peer = trim(pieces.last());
        if peer.len() == 0 || prev.contains(peer) {
            prev
        } else {
            prev.push(peer)
        }
    }
}

/// The peers that the list `raw` names.
pub open spec fn peer_list(raw: Seq<char>) -> Seq<Seq<char>> {
    collect_peers(split(raw, ','))
}

/// A peer identifier as the lists hold it: not empty, no white space at
/// either end, no comma.
pub open spec fn is_peer_id(p: Seq<char>) -> bool {
    &&& p.len() > 0
    &&& !is_white_space(p[0])
    &&& !is_white_space(p.last())
    &&& !p.contains(',')
}

/// `p` is the trimmed form of one of `pieces`.
pub open spec fn trims_one_of(pieces: Seq<Seq<char>>, p: Seq<char>) -> bool {
    exists|k: int| 0 <= k < pieces.len() && #[trigger] trim(pieces[k]) == p
}

proof fn lemma_trim_peer(piece: Seq<char>)
    requires
        !piece.contains(','),
        trim(piece).len() > 0,
    ensures
        is_peer_id(trim(piece)),
{
    lemma_trim_shape(piece);
    let t = trim(piece);
    let off = trim_offset(piece);
    assert forall|j: int| 0 <= j < t.len() implies t[j] != ',' by {
        assert(t[j] == piece[off + j]);
    }
}

proof fn lemma_collect_peers(pieces: Seq<Seq<char>>)
    requires
        forall|k: int| 0 <= k < pieces.len() ==> !(#[trigger] pieces[k]).contains(','),
    ensures
        collect_peers(pieces).no_duplicates(),
        forall|i: int|
            0 <= i < collect_peers(pieces).len() ==> is_peer_id(#[trigger] collect_peers(pieces)[i]),
        forall|p: Seq<char>|
            #[trigger] collect_peers(pieces).contains(p) <==> (p.len() > 0 && trims_one_of(
                pieces,
                p,
            )),
    decreases pieces.len(),
{
    if pieces.len() > 0 {
        let init = pieces.drop_last();
        let last = pieces.last();
        assert forall|k: int| 0 <= k < init.len() implies !(#[trigger] init[k]).contains(',') by {
            assert(init[k] == pieces[k]);
        }
        lemma_collect_peers(init);
        let prev = collect_peers(init);
        let peer = trim(last);
        let cur = collect_peers(pieces);
        if peer.len() > 0 {
            lemma_trim_peer(last);
        }
        assert forall|p: Seq<char>|
            #[trigger] cur.contains(p) <==> (p.len() > 0 && trims_one_of(pieces, p)) by {
            if trims_one_of(pieces, p) {
                let k = choose|k: int| 0 <= k < pieces.len() && #[trigger] trim(pieces[k]) == p;
                if k < init.len() {
                    assert(trim(init[k]) == p);
                }
            }
            if trims_one_of(init, p) {
                let k = choose|k: int| 0 <= k < init.len() && #[trigger] trim(init[k]) == p;
                assert(trim(pieces[k]) == p);
            }
            if p == peer && p.len() > 0 {
                assert(trim(pieces[pieces.len() - 1]) == p);
            }
            if cur.contains(p) && !prev.contains(p) {
                let i = choose|i: int| 0 <= i < cur.len() && cur[i] == p;
                assert(i == prev.len());
            }
            if prev.contains(p) {
                let i = choose|i: int| 0 <= i < prev.len() && prev[i] == p;
                assert(cur[i] == p);
            }
            if !(peer.len() == 0 || prev.contains(peer)) && p == peer {
                assert(cur[prev.len() as int] == p);
            }
        }
    }
}

/// The peers that a list names are exactly the non-empty trimmed pieces
/// between its commas, each named once, none empty, none beginning or ending
/// with white space, none holding a comma.
pub proof fn law_peer_list_exact(raw: Seq<char>)
    ensures
        peer_list(raw).no_duplicates(),
        forall|i: int| 0 <= i < peer_list(raw).len() ==> is_peer_id(#[trigger] peer_list(raw)[i]),
        forall|p: Seq<char>|
            #[trigger] peer_list(raw).contains(p) <==> (p.len() > 0 && trims_one_of(
                split(raw, ','),
                p,
            )),
{
    lemma_split_pieces(raw, ',', 0, 0);
    lemma_collect_peers(split(raw, ','));
}

/// Whether a device applies a message: a message that names its target peers
/// is applied exactly by those; one that names none is applied by every
/// device, or by the selected ones where `selected` says so.
pub open spec fn applies_to(
    selected: Option<Seq<Seq<char>>>,
    local: Seq<char>,
    targets: Seq<Seq<char>>,
) -> bool {
    if targets.len() > 0 {
        targets.contains(local)
    } else {
        match selected {
            None => true,
            Some(peers) => peers.contains(local),
        }
    }
}

/// A list without commas names one peer: the whole value, trimmed of white
/// space, however long it is (none where it is only white space).
pub proof fn law_single_peer_whole(raw: Seq<char>)
    requires
        !raw.contains(','),
    ensures
        peer_list(raw) == (if trim(raw).len() > 0 {
            seq![trim(raw)]
        } else {
            Seq::<Seq<char>>::empty()
        }),
{
    lemma_split_single(raw, ',', 0, 0);
    assert(raw.subrange(0, raw.len() as int) =~= raw);
    assert(split(raw, ',') == seq![raw]);
    assert(seq![raw].drop_last() =~= Seq::<Seq<char>>::empty());
    assert(collect_peers(Seq::<Seq<char>>::empty()) == Seq::<Seq<char>>::empty());
    assert(seq![raw].last() == raw);
    if trim(raw).len() > 0 {
        assert(!Seq::<Seq<char>>::empty().contains(trim(raw)));
        assert(Seq::<Seq<char>>::empty().push(trim(raw)) =~= seq![trim(raw)]);
    }
}

/// A message that names target peers is applied by exactly those devices,
/// whatever a device's own policy; one that names none is applied by every
/// device without a selection, and by the selected devices only where there is
/// one.
pub proof fn law_delivery(
    selected: Option<Seq<Seq<char>>>,
    other: Option<Seq<Seq<char>>>,
    local: Seq<char>,
    targets: Seq<Seq<char>>,
)
    ensures
        targets.len() > 0 ==> applies_to(selected, local, targets) == targets.contains(local)
            && applies_to(selected, local, targets) == applies_to(other, local, targets),
        applies_to(None, local, seq![]),
        forall|peers: Seq<Seq<char>>|
            applies_to(Some(peers), local, seq![]) == #[trigger] peers.contains(local),
{
}

/// Reads a comma-separated peer list: each piece trimmed of white space,
/// empty pieces dropped, repeats dropped.
pub fn parse_peer_list(raw: &str) -> (r: PeerSet)
    ensures
        r@ == peer_list(raw@),
        r@.no_duplicates(),
{
    let n: usize = raw.unicode_len();
    let ghost s = raw@;
    let mut peers = PeerSet::new();
    let mut start: usize = 0;
    let mut i: usize = 0;
    let ghost mut done: Seq<Seq<char>> = seq![];
    while i < n
        invariant
            n == s.len(),
            s == raw@,
            start <= i <= n,
            peers@ == collect_peers(done),
            peers@.no_duplicates(),
            done + split_from(s, ',', start as int, i as int) == split(s, ','),
        decreases n - i,
    {
        if raw.get_char(i) == ',' {
            let piece: &str = raw.substring_char(start, i);
            let peer = trim_to_string(piece);
            proof {
                let rest = split_from(s, ',', i + 1, i + 1);
                assert(done.push(piece@) + rest =~= done + (seq![piece@] + rest));
                assert(done.push(piece@).drop_last() =~= done);
            }
            if !peer.as_str().is_empty() {
                peers.insert(peer);
            }
            proof {
                done = done.push(piece@);
            }
            start = i + 1;
        }
        i = i + 1;
    }
    let piece: &str = raw.substring_char(start, n);
    let peer = trim_to_string(piece);
    proof {
        assert(done.push(piece@) =~= done + seq![piece@]);
        assert(done.push(piece@).drop_last() =~= done);
    }
    if !peer.as_str().is_empty() {
        peers.insert(peer);
    }
    peers
}

/// How a device treats messages that name no target peers.
pub enum ApplyPolicy {
    /// Every device applies them.
    AllDevices,
    /// Only the listed devices apply them.
    SelectedDevices(PeerSet),
}

impl View for ApplyPolicy {
    type V = Option<Seq<Seq<char>>>;

    open spec fn view(&self) -> Option<Seq<Seq<char>>> {
        match self {
            ApplyPolicy::AllDevices => None,
            ApplyPolicy::SelectedDevices(peers) => Some(peers@),
        }
    }
}

/// The delivery policy of a device.
pub struct PolicyEngine {
    apply_policy: ApplyPolicy,
    outbound_targets: PeerSet,
}

impl PolicyEngine {
    /// The devices that apply untargeted messages: `None` for every device.
    pub closed spec fn selected_view(&self) -> Option<Seq<Seq<char>>> {
        self.apply_policy@
    }

    /// The peers that this device's own clipboard updates are sent to; none
    /// means every peer.
    pub closed spec fn outbound_view(&self) -> Seq<Seq<char>> {
        self.outbound_targets@
    }

    /// Builds the policy from the values of the variables
    /// `CLIPPY_SELECTED_PEERS` and `CLIPPY_TARGET_PEERS` (empty where unset):
    /// an empty selected list means that every device applies untargeted
    /// messages.
    pub fn from_env(selected_peers: &str, target_peers: &str) -> (r: PolicyEngine)
        ensures
            r.selected_view() == (if peer_list(selected_peers@).len() == 0 {
                None
            } else {
                Some(peer_list(selected_peers@))
            }),
            r.outbound_view() == peer_list(target_peers@),
    {
        let selected = parse_peer_list(selected_peers);
        let outbound = parse_peer_list(target_peers);
        let apply_policy = if selected.is_empty() {
            ApplyPolicy::AllDevices
        } else {
            ApplyPolicy::SelectedDevices(selected)
        };
        PolicyEngine { apply_policy, outbound_targets: outbound }
    }

    /// The peers that this device's clipboard updates are addressed to.
    pub fn outbound_targets(&self) -> (r: Vec<String>)
        ensures
            ids_of(r@) == self.outbound_view(),
            ids_of(r@).no_duplicates(),
    {
        self.outbound_targets.to_vec()
    }

    /// Whether the device `local_peer_id` applies a message addressed to
    /// `target_peer_ids`.
    pub fn should_apply_message(&self, local_peer_id: &str, target_peer_ids: &[String]) -> (r:
        bool)
        ensures
            r == applies_to(self.selected_view(), local_peer_id@, ids_of(target_peer_ids@)),
    {
        if target_peer_ids.len() > 0 {
            let local = String::from_str(local_peer_id);
            let n: usize = target_peer_ids.len();
            let mut i: usize = 0;
            while i < n
                invariant
                    n == target_peer_ids@.len(),
                    local@ == local_peer_id@,
                    i <= n,
                    forall|j: int| 0 <= j < i ==> ids_of(target_peer_ids@)[j] != local_peer_id@,
                decreases n - i,
            {
                if target_peer_ids[i] == local {
                    assert(ids_of(target_peer_ids@)[i as int] == local_peer_id@);
                    return true;
                }
                i = i + 1;
            }
            return false;
        }
        match &self.apply_policy {
            ApplyPolicy::AllDevices => true,
            ApplyPolicy::SelectedDevices(selected) => selected.contains(local_peer_id),
        }
    }
}

} // verus!
