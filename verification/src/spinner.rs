//! The node's background event work: applying each discovery event to the
//! graph view and fanning events out to status listeners. Fan-out is
//! best-effort and non-blocking: a full listener channel loses the event, a
//! closed one is dropped from the list.

use vstd::prelude::*;
use vstd::multiset::Multiset;
use vstd::seq_lib::group_to_multiset_ensures;
use crate::channels::{channel_bounded, channel_try_send, TrySendOutcome};
use crate::entities::{same_node_info, ParticipantEntitiesInfo};
use crate::graph::{apply_event_post, DdsDiscoveryEvent, GraphState};

verus! {

/// How many events one listener's channel buffers before it starts losing
/// them.
pub const STATUS_CHANNEL_CAPACITY: usize = 8;

/// A DDS or graph discovery event, as fanned out to status listeners.
pub enum NodeEvent {
    Dds(DdsDiscoveryEvent),
    Ros(ParticipantEntitiesInfo),
}

/// Two events carry the same content.
pub open spec fn same_event(a: NodeEvent, b: NodeEvent) -> bool {
    match (a, b) {
        (NodeEvent::Dds(x), NodeEvent::Dds(y)) => x == y,
        (NodeEvent::Ros(p), NodeEvent::Ros(q)) => p.gid == q.gid && p.nodes@.len() == q.nodes@.len()
            && (forall|i: int|
            0 <= i < p.nodes@.len() ==> same_node_info(#[trigger] p.nodes@[i], q.nodes@[i])),
        _ => false,
    }
}

impl NodeEvent {
    /// A copy carrying the same content, for handing to one listener.
    pub fn duplicate(&self) -> (r: NodeEvent)
        ensures
            same_event(*self, r),
    {
        match self {
            NodeEvent::Dds(e) => NodeEvent::Dds(*e),
            NodeEvent::Ros(p) => NodeEvent::Ros(p.duplicate()),
        }
    }
}

/// The multiset of senders kept after a broadcast, reading the outcomes
/// from position `j` on: those whose send did not report a closed channel.
pub open spec fn kept_ms(
    s: Seq<async_channel::Sender<NodeEvent>>,
    outcomes: Seq<TrySendOutcome>,
    j: int,
) -> Multiset<async_channel::Sender<NodeEvent>>
    decreases s.len() - j when 0 <= j <= s.len() && s.len() == outcomes.len()
{
    if j >= s.len() {
        Multiset::empty()
    } else if outcomes[j] == TrySendOutcome::Closed {
        kept_ms(s, outcomes, j + 1)
    } else {
        kept_ms(s, outcomes, j + 1).insert(s[j])
    }
}

/// The suffix of a sequence from `j` on holds one more element than from
/// `j + 1` on.
proof fn lemma_skip_multiset<T>(s: Seq<T>, j: int)
    requires
        0 <= j < s.len(),
    ensures
        s.skip(j).to_multiset() == s.skip(j + 1).to_multiset().insert(s[j]),
{
    broadcast use group_to_multiset_ensures;

    let suf = s.skip(j);
    assert(suf.len() > 0);
    assert(suf[0] == s[j]);
    assert(suf.remove(0) =~= s.skip(j + 1));
    assert(suf.remove(0).to_multiset() =~= suf.to_multiset().remove(suf[0]));
    assert(suf.contains(s[j]));
    assert(suf.to_multiset().count(s[j]) > 0);
    assert(suf.to_multiset() =~= suf.to_multiset().remove(s[j]).insert(s[j]));
}

/// Removing position `i` by a swap with the last element removes exactly
/// that element from the sequence's multiset.
proof fn lemma_swap_remove_multiset<T>(s: Seq<T>, i: int)
    requires
        0 <= i < s.len(),
    ensures
        s.update(i, s.last()).drop_last().to_multiset() == s.to_multiset().remove(s[i]),
{
    broadcast use group_to_multiset_ensures;

    let n = s.len() as int;
    let u = s.update(i, s.last());
    if i == n - 1 {
        assert(u =~= s);
        assert(u.drop_last() =~= s.remove(n - 1));
        assert(s.remove(n - 1).to_multiset() =~= s.to_multiset().remove(s[n - 1]));
    } else {
        vstd::seq_lib::to_multiset_update(s, i, s.last());
        assert(u.to_multiset() == s.to_multiset().insert(s.last()).remove(s[i]));
        assert(u.drop_last() =~= u.remove(n - 1));
        assert(u.remove(n - 1).to_multiset() =~= u.to_multiset().remove(u[n - 1]));
        assert(u[n - 1] == s.last());
        assert(s.to_multiset().insert(s.last()).remove(s[i]).remove(s.last()) =~= s.to_multiset().remove(
            s[i],
        )) by {
            assert(s.contains(s[i]));
            assert(s.to_multiset().count(s[i]) > 0);
        }
    }
}

/// Fans one event out to every listener, non-blocking: a full channel loses
/// the event silently; every channel that reported itself closed is removed
/// from the list (by a swap with the last survivor, so survivors may be
/// reordered). Returns the per-listener outcomes, index-aligned with the
/// list as it was on entry.
pub fn send_status_event(
    senders: &mut Vec<async_channel::Sender<NodeEvent>>,
    event: &NodeEvent,
) -> (outcomes: Vec<TrySendOutcome>)
    ensures
        outcomes@.len() == old(senders)@.len(),
        final(senders)@.to_multiset() == kept_ms(old(senders)@, outcomes@, 0),
{
    let ghost pre = senders@;
    let mut outcomes: Vec<TrySendOutcome> = Vec::new();
    let mut i: usize = 0;
    while i < senders.len()
        invariant
            senders@ == pre,
            pre == old(senders)@,
            0 <= i <= pre.len(),
            outcomes@.len() == i,
        decreases pre.len() - i,
    {
        let outcome = channel_try_send(&senders[i], event.duplicate());
        outcomes.push(outcome);
        i = i + 1;
    }
    let mut j: usize = senders.len();
    proof {
        broadcast use group_to_multiset_ensures;

        assert(senders@.skip(j as int) =~= Seq::<async_channel::Sender<NodeEvent>>::empty());
        assert(senders@.skip(j as int).to_multiset() =~= Multiset::empty());
    }
    while j > 0
        invariant
            pre == old(senders)@,
            outcomes@.len() == pre.len(),
            0 <= j <= senders@.len(),
            senders@.len() <= pre.len(),
            senders@.subrange(0, j as int) == pre.subrange(0, j as int),
            senders@.skip(j as int).to_multiset() == kept_ms(pre, outcomes@, j as int),
        decreases j,
    {
        j = j - 1;
        proof {
            assert(senders@.subrange(0, j as int + 1)[j as int] == senders@[j as int]);
            assert(pre.subrange(0, j as int + 1)[j as int] == pre[j as int]);
            assert(senders@[j as int] == pre[j as int]);
        }
        if outcomes[j] == TrySendOutcome::Closed {
            let ghost before = senders@;
            senders.swap_remove(j);
            proof {
                lemma_swap_remove_multiset(before, j as int);
                assert(senders@.subrange(0, j as int) =~= before.subrange(0, j as int)) by {
                    assert forall|k: int| 0 <= k < j as int implies senders@[k] == before[k] by {}
                }
                assert(senders@.subrange(0, j as int) =~= pre.subrange(0, j as int)) by {
                    assert(before.subrange(0, j as int + 1) == pre.subrange(0, j as int + 1));
                    assert forall|k: int| 0 <= k < j as int implies before[k] == pre[k] by {
                        assert(before.subrange(0, j as int + 1)[k] == before[k]);
                        assert(pre.subrange(0, j as int + 1)[k] == pre[k]);
                    }
                }
                // split both the old and the new sequence at j and cancel
                // the removed element inside the suffix
                broadcast use group_to_multiset_ensures;

                assert(before =~= before.subrange(0, j as int) + before.skip(j as int));
                assert(senders@ =~= senders@.subrange(0, j as int) + senders@.skip(j as int));
                vstd::seq_lib::lemma_multiset_commutative(before.subrange(0, j as int),
                    before.skip(j as int));
                vstd::seq_lib::lemma_multiset_commutative(senders@.subrange(0, j as int),
                    senders@.skip(j as int));
                lemma_skip_multiset(before, j as int);
                assert(before[j as int] == pre[j as int]);
                // counts agree for every sender, so the suffix multisets
                // relate by removing the closed one
                assert(senders@.skip(j as int).to_multiset() =~= before.skip(
                    j as int,
                ).to_multiset().remove(pre[j as int])) by {
                    assert(senders@.to_multiset() == before.to_multiset().remove(pre[j as int]));
                    assert(senders@.subrange(0, j as int).to_multiset() == before.subrange(
                        0,
                        j as int,
                    ).to_multiset());
                    assert forall|x: async_channel::Sender<NodeEvent>|
                        senders@.skip(j as int).to_multiset().count(x) == before.skip(
                            j as int,
                        ).to_multiset().remove(pre[j as int]).count(x) by {
                        assert(senders@.to_multiset().count(x) == senders@.subrange(
                            0,
                            j as int,
                        ).to_multiset().count(x) + senders@.skip(j as int).to_multiset().count(x));
                        assert(before.to_multiset().count(x) == before.subrange(
                            0,
                            j as int,
                        ).to_multiset().count(x) + before.skip(j as int).to_multiset().count(x));
                    }
                }
                assert(before.skip(j as int).to_multiset() == kept_ms(pre, outcomes@,
                    j as int + 1).insert(pre[j as int]));
                assert(before.skip(j as int).to_multiset().remove(pre[j as int]) =~= kept_ms(
                    pre,
                    outcomes@,
                    j as int + 1,
                )) by {
                    assert(kept_ms(pre, outcomes@, j as int + 1).insert(pre[j as int]).remove(
                        pre[j as int],
                    ) =~= kept_ms(pre, outcomes@, j as int + 1));
                }
                assert(kept_ms(pre, outcomes@, j as int) == kept_ms(pre, outcomes@, j as int + 1));
            }
        } else {
            proof {
                lemma_skip_multiset(senders@, j as int);
                assert(kept_ms(pre, outcomes@, j as int) == kept_ms(pre, outcomes@,
                    j as int + 1).insert(pre[j as int]));
            }
        }
    }
    proof {
        assert(senders@.skip(0) =~= senders@);
    }
    outcomes
}

/// Registers one more status listener: a fresh bounded channel whose sender
/// joins the fan-out list and whose receiver goes to the caller. There must
/// be a task driving the spinner for the receiver to see any data.
pub fn add_status_listener(senders: &mut Vec<async_channel::Sender<NodeEvent>>) -> (r:
    async_channel::Receiver<NodeEvent>)
    ensures
        final(senders)@.len() == old(senders)@.len() + 1,
        forall|i: int|
            0 <= i < old(senders)@.len() ==> final(senders)@[i] == #[trigger] old(senders)@[i],
{
    let (sender, receiver) = channel_bounded::<NodeEvent>(STATUS_CHANNEL_CAPACITY);
    senders.push(sender);
    receiver
}

/// The stop channel a node hands its spinner: one slot is enough for the
/// single stop signal.
pub fn make_stop_channel() -> (r: (async_channel::Sender<()>, async_channel::Receiver<()>)) {
    channel_bounded::<()>(1)
}

/// Asks the spinner to stop, without blocking. The outcome is ignored by
/// the caller: a full channel means a signal is already on its way, a
/// closed one that the spinner is already gone.
pub fn signal_stop(sender: &async_channel::Sender<()>) -> (r: TrySendOutcome) {
    channel_try_send(sender, ())
}

/// One step of the spinner on a transport status event: the graph view
/// absorbs the event, then every listener is offered it.
pub fn handle_discovery_event(
    graph: &mut GraphState,
    senders: &mut Vec<async_channel::Sender<NodeEvent>>,
    ev: DdsDiscoveryEvent,
) -> (outcomes: Vec<TrySendOutcome>)
    requires
        old(graph).wf(),
    ensures
        final(graph).wf(),
        apply_event_post(*old(graph), *final(graph), ev),
        outcomes@.len() == old(senders)@.len(),
        final(senders)@.to_multiset() == kept_ms(old(senders)@, outcomes@, 0),
{
    graph.apply_discovery_event(&ev);
    let event = NodeEvent::Dds(ev);
    send_status_event(senders, &event)
}

/// One step of the spinner on a graph topic sample: the sample's node list
/// replaces whatever was known under its participant, no other entry moves,
/// and every listener is offered the event.
pub fn handle_graph_sample(
    graph: &mut GraphState,
    senders: &mut Vec<async_channel::Sender<NodeEvent>>,
    info: ParticipantEntitiesInfo,
) -> (outcomes: Vec<TrySendOutcome>)
    requires
        old(graph).wf(),
    ensures
        final(graph).wf(),
        final(graph).readers_to_remote_writers == old(graph).readers_to_remote_writers,
        final(graph).writers_to_remote_readers == old(graph).writers_to_remote_readers,
        old(graph).spec_has_participant(info.gid) ==> final(graph).external_nodes@ == old(
            graph).external_nodes@.update(old(graph).spec_participant_index(info.gid), (info.gid, info.nodes)),
        !old(graph).spec_has_participant(info.gid) ==> final(graph).external_nodes@ == old(
            graph).external_nodes@.push((info.gid, info.nodes)),
        outcomes@.len() == old(senders)@.len(),
        final(senders)@.to_multiset() == kept_ms(old(senders)@, outcomes@, 0),
{
    let event = NodeEvent::Ros(info.duplicate());
    let gid = info.gid;
    graph.update_external_nodes(gid, info.nodes);
    send_status_event(senders, &event)
}

} // verus!
