//! Request/response correlation for the service layer.
//!
//! A client allocates one correlation id per request, monotonically within
//! its own writer identity, so ids are unique for the client's lifetime. A
//! suspending call registers its id in the pending set; when a reply
//! arrives it is routed by id: delivered to the one pending call with that
//! id, or discarded. Delivery removes the slot, so each id is delivered at
//! most once.

use vstd::prelude::*;
use crate::ids::{Guid, RmwRequestId};

verus! {

/// What the client does with one incoming reply.
#[derive(Clone, Copy, PartialEq, Eq, Structural, Debug)]
pub enum RouteDecision {
    /// The reply answers a pending call: hand it to that call.
    Deliver,
    /// No call is pending under this id: drop the reply.
    Discard,
}

/// Client-side correlation state: the writer identity the ids are scoped
/// to, the next sequence number, and the ids of suspended calls still
/// awaiting their reply.
pub struct ClientCore {
    pub writer_guid: Guid,
    pub next_seq: u64,
    pub pending: Vec<RmwRequestId>,
}

impl ClientCore {
    /// Every pending id was allocated by this client (same writer, sequence
    /// number already used), and no id is pending twice.
    pub open spec fn wf(&self) -> bool {
        &&& (forall|i: int|
            0 <= i < self.pending@.len() ==> (#[trigger] self.pending@[i]).writer_guid
                == self.writer_guid && self.pending@[i].seq < self.next_seq)
        &&& (forall|i: int, j: int|
            #![trigger self.pending@[i], self.pending@[j]]
            0 <= i < j < self.pending@.len() ==> self.pending@[i] != self.pending@[j])
        &&& self.next_seq >= 1
    }

    pub open spec fn pending_contains(&self, id: RmwRequestId) -> bool {
        exists|i: int| 0 <= i < self.pending@.len() && self.pending@[i] == id
    }

    /// A fresh client: no memory of earlier requests; sequence numbers
    /// start at one, scoped to the (fresh) writer GUID.
    pub fn new(writer_guid: Guid) -> (r: ClientCore)
        ensures
            r.wf(),
            r.writer_guid == writer_guid,
            r.next_seq == 1,
            r.pending@.len() == 0,
    {
        ClientCore { writer_guid, next_seq: 1, pending: Vec::new() }
    }
}

/// State change of allocating the id for one poll-style request.
pub open spec fn send_post(pre: ClientCore, post: ClientCore, r: RmwRequestId) -> bool {
    &&& post.wf()
    &&& r.writer_guid == pre.writer_guid
    &&& r.seq == pre.next_seq
    &&& !pre.pending_contains(r)
    &&& post.writer_guid == pre.writer_guid
    &&& post.next_seq == pre.next_seq + 1
    &&& post.pending@ == pre.pending@
}

/// State change of starting one suspending call: the allocated id is also
/// registered as pending.
pub open spec fn begin_post(pre: ClientCore, post: ClientCore, r: RmwRequestId) -> bool {
    &&& post.wf()
    &&& r.writer_guid == pre.writer_guid
    &&& r.seq == pre.next_seq
    &&& !pre.pending_contains(r)
    &&& post.writer_guid == pre.writer_guid
    &&& post.next_seq == pre.next_seq + 1
    &&& post.pending@ == pre.pending@.push(r)
    &&& post.pending_contains(r)
}

/// State change of routing one incoming reply by its id.
pub open spec fn route_post(
    pre: ClientCore,
    post: ClientCore,
    id: RmwRequestId,
    d: RouteDecision,
) -> bool {
    &&& post.wf()
    &&& post.writer_guid == pre.writer_guid
    &&& post.next_seq == pre.next_seq
    &&& (d == RouteDecision::Deliver) == pre.pending_contains(id)
    &&& !post.pending_contains(id)
    &&& (forall|other: RmwRequestId|
        other != id ==> post.pending_contains(other) == #[trigger] pre.pending_contains(other))
    &&& (d == RouteDecision::Discard ==> post.pending@ == pre.pending@)
}

/// State change of dropping a suspended call before its reply arrived: the
/// slot goes away, and a reply arriving later is discarded.
pub open spec fn cancel_post(pre: ClientCore, post: ClientCore, id: RmwRequestId) -> bool {
    &&& post.wf()
    &&& post.writer_guid == pre.writer_guid
    &&& post.next_seq == pre.next_seq
    &&& !post.pending_contains(id)
    &&& (forall|other: RmwRequestId|
        other != id ==> post.pending_contains(other) == #[trigger] pre.pending_contains(other))
}

/// Any state change the client can make.
pub open spec fn client_step(pre: ClientCore, post: ClientCore) -> bool {
    ||| (exists|r: RmwRequestId| send_post(pre, post, r))
    ||| (exists|r: RmwRequestId| begin_post(pre, post, r))
    ||| (exists|id: RmwRequestId, d: RouteDecision| route_post(pre, post, id, d))
    ||| (exists|id: RmwRequestId| cancel_post(pre, post, id))
}

impl ClientCore {
    /// Allocates the correlation id of one new request: this writer's GUID
    /// plus the next sequence number. The id never collides with any id the
    /// client allocated before.
    pub fn send_request(&mut self) -> (r: RmwRequestId)
        requires
            old(self).wf(),
            old(self).next_seq < u64::MAX,
        ensures
            send_post(*old(self), *final(self), r),
    {
        let id = RmwRequestId { writer_guid: self.writer_guid, seq: self.next_seq };
        self.next_seq = self.next_seq + 1;
        proof {
            assert(!old(self).pending_contains(id));
        }
        id
    }

    /// Starts one suspending call: allocates the id and registers it as
    /// pending, to be completed by the reply carrying the same id.
    pub fn begin_async_call(&mut self) -> (r: RmwRequestId)
        requires
            old(self).wf(),
            old(self).next_seq < u64::MAX,
        ensures
            begin_post(*old(self), *final(self), r),
    {
        let id = RmwRequestId { writer_guid: self.writer_guid, seq: self.next_seq };
        self.next_seq = self.next_seq + 1;
        proof {
            assert(!old(self).pending_contains(id));
        }
        self.pending.push(id);
        proof {
            assert(self.pending@[self.pending@.len() - 1] == id);
            assert(self.pending_contains(id));
            assert forall|i: int, j: int|
                #![trigger self.pending@[i], self.pending@[j]]
                0 <= i < j < self.pending@.len() implies self.pending@[i]
                != self.pending@[j] by {
                if j == self.pending@.len() - 1 {
                    assert(self.pending@[i] == old(self).pending@[i]);
                }
            }
        }
        id
    }

    fn find_pending(&self, id: RmwRequestId) -> (r: Option<usize>)
        ensures
            r matches Some(i) ==> i < self.pending@.len() && self.pending@[i as int] == id,
            r.is_none() ==> !self.pending_contains(id),
    {
        let mut i: usize = 0;
        while i < self.pending.len()
            invariant
                0 <= i <= self.pending@.len(),
                forall|j: int| 0 <= j < i ==> self.pending@[j] != id,
            decreases self.pending@.len() - i,
        {
            if self.pending[i] == id {
                return Some(i);
            }
            i = i + 1;
        }
        None
    }

    /// Routes one incoming reply. It is delivered exactly when a call is
    /// pending under its id, and the slot is removed either way, so a later
    /// reply carrying the same id is discarded.
    pub fn route_response(&mut self, id: RmwRequestId) -> (d: RouteDecision)
        requires
            old(self).wf(),
        ensures
            route_post(*old(self), *final(self), id, d),
    {
        match self.find_pending(id) {
            None => {
                proof {
                    assert(!self.pending_contains(id));
                }
                RouteDecision::Discard
            },
            Some(i) => {
                self.pending.remove(i);
                proof {
                    let pre = old(self).pending@;
                    let post = self.pending@;
                    assert(post == pre.remove(i as int));
                    assert forall|k: int| 0 <= k < post.len() implies #[trigger] post[k]
                        != id by {
                        if k < i {
                            assert(post[k] == pre[k]);
                        } else {
                            assert(post[k] == pre[k + 1]);
                        }
                    }
                    assert(!self.pending_contains(id));
                    assert forall|other: RmwRequestId|
                        other != id implies self.pending_contains(other) == old(
                        self,
                    ).pending_contains(other) by {
                        if old(self).pending_contains(other) {
                            let j = choose|j: int|
                                0 <= j < pre.len() && pre[j] == other;
                            if j < i {
                                assert(post[j] == other);
                            } else {
                                assert(j != i);
                                assert(post[j - 1] == other);
                            }
                            assert(self.pending_contains(other));
                        }
                        if self.pending_contains(other) {
                            let j = choose|j: int|
                                0 <= j < post.len() && post[j] == other;
                            if j < i {
                                assert(pre[j] == other);
                            } else {
                                assert(pre[j + 1] == other);
                            }
                            assert(old(self).pending_contains(other));
                        }
                    }
                    assert forall|k: int, l: int|
                        #![trigger post[k], post[l]]
                        0 <= k < l < post.len() implies post[k] != post[l] by {
                        let pk: int = if k < i { k } else { k + 1 };
                        let pl: int = if l < i { l } else { l + 1 };
                        assert(post[k] == pre[pk] && post[l] == pre[pl]);
                    }
                }
                RouteDecision::Deliver
            },
        }
    }

    /// Drops the slot of a suspended call whose future went away: a reply
    /// arriving later under this id is discarded.
    pub fn cancel_pending(&mut self, id: RmwRequestId)
        requires
            old(self).wf(),
        ensures
            cancel_post(*old(self), *final(self), id),
    {
        let _d = self.route_response(id);
    }
}

/// Law: once a reply id has been delivered — or its call cancelled — no
/// later step of the client makes that id pending again; every later reply
/// carrying it is discarded.
pub proof fn lemma_delivered_id_stays_out(pre: ClientCore, post: ClientCore, id: RmwRequestId)
    requires
        pre.wf(),
        id.writer_guid == pre.writer_guid ==> id.seq < pre.next_seq,
        !pre.pending_contains(id),
        client_step(pre, post),
    ensures
        post.wf(),
        post.writer_guid == pre.writer_guid,
        id.writer_guid == post.writer_guid ==> id.seq < post.next_seq,
        !post.pending_contains(id),
{
    if exists|r: RmwRequestId| begin_post(pre, post, r) {
        let r = choose|r: RmwRequestId| begin_post(pre, post, r);
        assert forall|i: int| 0 <= i < post.pending@.len() implies #[trigger] post.pending@[i]
            != id by {
            if i < pre.pending@.len() {
                assert(post.pending@[i] == pre.pending@[i]);
                assert(!pre.pending_contains(id) ==> pre.pending@[i] != id);
            } else {
                assert(post.pending@[i] == r);
            }
        }
    }
}

/// Law: at most one of two replies routed under the same id is delivered.
/// The first delivery removes the slot, so the second routing discards.
pub proof fn lemma_reply_delivered_at_most_once(
    c0: ClientCore,
    c1: ClientCore,
    c2: ClientCore,
    id: RmwRequestId,
    d1: RouteDecision,
    d2: RouteDecision,
)
    requires
        c0.wf(),
        route_post(c0, c1, id, d1),
        route_post(c1, c2, id, d2),
    ensures
        !(d1 == RouteDecision::Deliver && d2 == RouteDecision::Deliver),
{
}

/// The payload of the first queued reply carrying the expected id, if any:
/// what one poll-style receive returns after draining.
pub open spec fn spec_first_match<P>(s: Seq<(RmwRequestId, P)>, id: RmwRequestId) -> Option<P>
    decreases s.len(),
{
    if s.len() == 0 {
        None
    } else if s[0].0 == id {
        Some(s[0].1)
    } else {
        spec_first_match(s.drop_first(), id)
    }
}

/// Poll-style receive: drains the replies taken so far, returns the payload
/// of the first one carrying the expected id, and discards replies routed
/// to other ids.
pub fn drain_replies_for<P>(replies: Vec<(RmwRequestId, P)>, expected: RmwRequestId) -> (r: Option<
    P,
>)
    ensures
        r == spec_first_match(replies@, expected),
{
    let mut v = replies;
    loop
        invariant
            spec_first_match(replies@, expected) == spec_first_match(v@, expected),
        decreases v@.len(),
    {
        if v.len() == 0 {
            return None;
        }
        let ghost pre = v@;
        let (id, payload) = v.remove(0);
        proof {
            assert(pre[0].0 == id && pre[0].1 == payload);
            assert(v@ =~= pre.drop_first());
        }
        if id == expected {
            return Some(payload);
        }
    }
}

} // verus!
