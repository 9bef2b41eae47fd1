//! The routing decisions of the clipboard daemon. The daemon's loop hands
//! each local clipboard change and each network event to `CoreDaemon`, which
//! answers what to do: send the text to the peers, write remote text into the
//! local clipboard, nothing, or stop. A remote text written into the local
//! clipboard comes back as a local change; it is not sent out again.
use vstd::prelude::*;
use vstd::string::*;

use crate::net::{ClipboardMessageView, NetEvent, NetEventView};
use crate::peer_set::ids_of;
use crate::platform::{ClipData, ClipDataView};
use crate::policy::{applies_to, PolicyEngine};

verus! {

/// What the daemon's loop does next.
#[derive(Debug)]
pub enum DaemonAction {
    /// Send `text` to `target_peer_ids` (none: every peer).
    Broadcast { text: String, target_peer_ids: Vec<String> },
    /// Write `text` into the local clipboard, then report how it went.
    ApplyRemote { text: String },
    /// Nothing to do for this input.
    Nothing,
    /// The input channel closed: leave the loop.
    Stop,
}

/// A daemon action as a value.
pub enum DaemonActionView {
    Broadcast { text: Seq<char>, target_peer_ids: Seq<Seq<char>> },
    ApplyRemote { text: Seq<char> },
    Nothing,
    Stop,
}

impl View for DaemonAction {
    type V = DaemonActionView;

    open spec fn view(&self) -> DaemonActionView {
        match self {
            DaemonAction::Broadcast { text, target_peer_ids } => DaemonActionView::Broadcast {
                text: text@,
                target_peer_ids: ids_of(target_peer_ids@),
            },
            DaemonAction::ApplyRemote { text } => DaemonActionView::ApplyRemote { text: text@ },
            DaemonAction::Nothing => DaemonActionView::Nothing,
            DaemonAction::Stop => DaemonActionView::Stop,
        }
    }
}

/// A local clipboard change, given the text awaiting its echo and the peers
/// that updates go to: the echo of a remote text is dropped once, clearing
/// the wait; other text is sent; other payloads are not sent; a closed
/// channel stops the daemon.
pub open spec fn local_step(
    suppressed: Option<Seq<char>>,
    outbound: Seq<Seq<char>>,
    item: Option<ClipDataView>,
) -> (Option<Seq<char>>, DaemonActionView) {
    match item {
        Some(ClipDataView::Text(text)) => if suppressed == Some(text) {
            (None, DaemonActionView::Nothing)
        } else {
            (suppressed, DaemonActionView::Broadcast { text, target_peer_ids: outbound })
        },
        Some(ClipDataView::Raw { .. }) => (suppressed, DaemonActionView::Nothing),
        None => (suppressed, DaemonActionView::Stop),
    }
}

/// A network event, at the device `local`: clipboard text from another peer
/// that this device applies is written locally; text that this device sent,
/// or that is not meant for it, is not; other events need nothing; a closed
/// channel stops the daemon.
pub open spec fn net_step(
    selected: Option<Seq<Seq<char>>>,
    local: Seq<char>,
    event: Option<NetEventView>,
) -> DaemonActionView {
    match event {
        Some(NetEventView::ClipboardReceived { from_peer, message }) => if from_peer == local {
            DaemonActionView::Nothing
        } else if applies_to(selected, local, message.target_peer_ids) {
            DaemonActionView::ApplyRemote { text: message.text }
        } else {
            DaemonActionView::Nothing
        },
        Some(_) => DaemonActionView::Nothing,
        None => DaemonActionView::Stop,
    }
}

/// After a remote text was written into the local clipboard, or failed to
/// be: a written text awaits its echo; a failure changes nothing.
pub open spec fn applied_step(suppressed: Option<Seq<char>>, text: Seq<char>, written: bool) -> Option<
    Seq<char>,
> {
    if written {
        Some(text)
    } else {
        suppressed
    }
}

/// An optional clipboard payload by its view.
pub open spec fn clip_view(item: Option<ClipData>) -> Option<ClipDataView> {
    match item {
        Some(c) => Some(c@),
        None => None,
    }
}

/// An optional network event by its view.
pub open spec fn event_view(event: Option<NetEvent>) -> Option<NetEventView> {
    match event {
        Some(e) => Some(e@),
        None => None,
    }
}

/// The name a node announces itself by: `CLIPPY_NODE_NAME` where set, else
/// `HOSTNAME` where set, else `clippy-node`.
pub fn resolve_node_name(clippy_node_name: Option<String>, hostname: Option<String>) -> (r: String)
    ensures
        r@ == match (clippy_node_name, hostname) {
            (Some(n), _) => n@,
            (None, Some(h)) => h@,
            (None, None) => "clippy-node"@,
        },
{
    match clippy_node_name {
        Some(n) => n,
        None => match hostname {
            Some(h) => h,
            None => String::from_str("clippy-node"),
        },
    }
}

/// The clipboard daemon: its policy, and the remote text whose echo it waits
/// for.
pub struct CoreDaemon {
    policy: PolicyEngine,
    suppress_next_outbound: Option<String>,
}

impl CoreDaemon {
    /// The policy the daemon routes by.
    pub closed spec fn policy_view(&self) -> &PolicyEngine {
        &self.policy
    }

    /// The remote text whose local echo is not to be sent out.
    pub closed spec fn suppressed(&self) -> Option<Seq<char>> {
        match self.suppress_next_outbound {
            Some(t) => Some(t@),
            None => None,
        }
    }

    /// A daemon with the given policy, waiting for no echo.
    pub fn new(policy: PolicyEngine) -> (r: CoreDaemon)
        ensures
            *r.policy_view() == policy,
            r.suppressed() == None::<Seq<char>>,
    {
        CoreDaemon { policy, suppress_next_outbound: None }
    }

    /// Decides what to do with a local clipboard change (`None`: the local
    /// channel closed).
    pub fn on_local_clip(&mut self, item: Option<ClipData>) -> (r: DaemonAction)
        ensures
            *final(self).policy_view() == *old(self).policy_view(),
            (final(self).suppressed(), r@) == local_step(
                old(self).suppressed(),
                old(self).policy_view().outbound_view(),
                clip_view(item),
            ),
    {
        match item {
            Some(ClipData::Text(text)) => {
                let echoed = match &self.suppress_next_outbound {
                    Some(waiting) => *waiting == text,
                    None => false,
                };
                if echoed {
                    self.suppress_next_outbound = None;
                    DaemonAction::Nothing
                } else {
                    let target_peer_ids = self.policy.outbound_targets();
                    DaemonAction::Broadcast { text, target_peer_ids }
                }
            },
            Some(ClipData::Raw { .. }) => DaemonAction::Nothing,
            None => DaemonAction::Stop,
        }
    }

    /// Decides what to do with a network event (`None`: the event channel
    /// closed), at the device `local_peer_id`. The daemon's state stays.
    pub fn on_net_event(&self, local_peer_id: &str, event: Option<NetEvent>) -> (r: DaemonAction)
        ensures
            r@ == net_step(self.policy_view().selected_view(), local_peer_id@, event_view(event)),
    {
        match event {
            Some(NetEvent::ClipboardReceived { from_peer, message }) => {
                if crate::text::str_equal(from_peer.as_str(), local_peer_id) {
                    DaemonAction::Nothing
                } else if self.policy.should_apply_message(
                    local_peer_id,
                    message.target_peer_ids.as_slice(),
                ) {
                    DaemonAction::ApplyRemote { text: message.text }
                } else {
                    DaemonAction::Nothing
                }
            },
            Some(_) => DaemonAction::Nothing,
            None => DaemonAction::Stop,
        }
    }

    /// Records how writing a remote `text` into the local clipboard went.
    pub fn on_remote_applied(&mut self, text: String, written: bool)
        ensures
            *final(self).policy_view() == *old(self).policy_view(),
            final(self).suppressed() == applied_step(old(self).suppressed(), text@, written),
    {
        if written {
            self.suppress_next_outbound = Some(text);
        }
    }
}

/// A remote text that was written into the local clipboard is not sent back
/// out when its echo arrives, and the wait ends there: the same text copied
/// again afterwards is sent.
pub proof fn law_echo_dropped_once(
    suppressed: Option<Seq<char>>,
    outbound: Seq<Seq<char>>,
    text: Seq<char>,
)
    ensures
        ({
            let waiting = applied_step(suppressed, text, true);
            let (after_echo, first) = local_step(waiting, outbound, Some(ClipDataView::Text(text)));
            let (after_copy, second) = local_step(
                after_echo,
                outbound,
                Some(ClipDataView::Text(text)),
            );
            &&& first == DaemonActionView::Nothing
            &&& after_echo == None::<Seq<char>>
            &&& second == (DaemonActionView::Broadcast { text, target_peer_ids: outbound })
            &&& after_copy == None::<Seq<char>>
        }),
{
}

/// A remote text that could not be written changes nothing: the daemon waits
/// for the same echo as before.
pub proof fn law_failed_write_keeps_state(suppressed: Option<Seq<char>>, text: Seq<char>)
    ensures
        applied_step(suppressed, text, false) == suppressed,
{
}

/// Every local text other than the awaited echo is sent, to the outbound
/// peers, and the wait goes on.
pub proof fn law_other_text_sent(
    suppressed: Option<Seq<char>>,
    outbound: Seq<Seq<char>>,
    text: Seq<char>,
)
    requires
        suppressed != Some(text),
    ensures
        local_step(suppressed, outbound, Some(ClipDataView::Text(text))) == (
        suppressed,
        DaemonActionView::Broadcast { text, target_peer_ids: outbound },
        ),
{
}

/// A clipboard message that this device sent itself is never written into
/// its clipboard, whatever the policy and the message's targets.
pub proof fn law_own_message_ignored(
    selected: Option<Seq<Seq<char>>>,
    local: Seq<char>,
    message: ClipboardMessageView,
)
    ensures
        net_step(
            selected,
            local,
            Some(NetEventView::ClipboardReceived { from_peer: local, message }),
        ) == DaemonActionView::Nothing,
{
}

/// A message from another peer is written into the local clipboard exactly
/// when the policy applies it here: when it names this device among its
/// targets, or names none and this device applies untargeted messages.
pub proof fn law_remote_text_applied_by_policy(
    selected: Option<Seq<Seq<char>>>,
    local: Seq<char>,
    from_peer: Seq<char>,
    message: ClipboardMessageView,
)
    requires
        from_peer != local,
    ensures
        (net_step(selected, local, Some(NetEventView::ClipboardReceived { from_peer, message }))
            == DaemonActionView::ApplyRemote { text: message.text }) == applies_to(
            selected,
            local,
            message.target_peer_ids,
        ),
        !applies_to(selected, local, message.target_peer_ids) ==> net_step(
            selected,
            local,
            Some(NetEventView::ClipboardReceived { from_peer, message }),
        ) == DaemonActionView::Nothing,
{
}

/// Only a closed channel stops the daemon. Every network event other than
/// received clipboard text (start, listening address, discovered or expired
/// peer, publish report, warning) needs nothing and the daemon goes on; a
/// local change never stops it either, nor asks to write the local clipboard.
pub proof fn law_only_closed_channel_stops(
    selected: Option<Seq<Seq<char>>>,
    local: Seq<char>,
    event: Option<NetEventView>,
    suppressed: Option<Seq<char>>,
    outbound: Seq<Seq<char>>,
    item: Option<ClipDataView>,
)
    ensures
        (net_step(selected, local, event) == DaemonActionView::Stop) <==> event is None,
        (event matches Some(e) && !(e is ClipboardReceived)) ==> net_step(selected, local, event)
            == DaemonActionView::Nothing,
        net_step(selected, local, event) is Broadcast == false,
        (local_step(suppressed, outbound, item).1 == DaemonActionView::Stop) <==> item is None,
        !(local_step(suppressed, outbound, item).1 is ApplyRemote),
{
}

} // verus!
