//! The action protocol's wire messages and the client side of the protocol:
//! an action is three services (send-goal, cancel-goal, get-result) plus the
//! feedback and status topics, and the client multiplexes all five by goal
//! id and correlation id.

use vstd::prelude::*;
use crate::ids::{GoalId, RmwRequestId, Time};
use crate::service::{begin_post, send_post, ClientCore};
use crate::status::GoalStatus;

verus! {

/// Request of the send-goal service: the fresh goal id plus the goal.
#[derive(Debug)]
pub struct SendGoalRequest<G> {
    pub goal_id: GoalId,
    pub goal: G,
}

/// Response of the send-goal service: whether the goal was accepted, and
/// when.
#[derive(Clone, Copy, PartialEq, Eq, Structural, Debug)]
pub struct SendGoalResponse {
    pub accepted: bool,
    pub stamp: Time,
}

/// Request of the get-result service.
#[derive(Clone, Copy, PartialEq, Eq, Structural, Debug)]
pub struct GetResultRequest {
    pub goal_id: GoalId,
}

/// Response of the get-result service: the terminal status reached and the
/// result the server stored for it.
#[derive(Debug)]
pub struct GetResultResponse<R> {
    pub status: GoalStatus,
    pub result: R,
}

/// One sample on the feedback topic.
#[derive(Debug)]
pub struct FeedbackMessage<F> {
    pub goal_id: GoalId,
    pub feedback: F,
}

/// A goal named together with the time it was accepted. The all-zero goal
/// id and the all-zero time are wildcards in a cancel request.
#[derive(Clone, Copy, PartialEq, Eq, Structural, Debug)]
pub struct GoalInfo {
    pub goal_id: GoalId,
    pub stamp: Time,
}

/// Request of the cancel service.
#[derive(Clone, Copy, PartialEq, Eq, Structural, Debug)]
pub struct CancelGoalRequest {
    pub goal_info: GoalInfo,
}

/// Outcome code of a cancel request.
#[derive(Clone, Copy, PartialEq, Eq, Structural, Debug)]
pub enum CancelReturnCode {
    Accepted,
    Rejected,
}

/// Response of the cancel service: the goals that are now canceling.
#[derive(Clone, Debug)]
pub struct CancelGoalResponse {
    pub return_code: CancelReturnCode,
    pub goals_canceling: Vec<GoalInfo>,
}

/// One entry of the status topic's roster.
#[derive(Clone, Copy, PartialEq, Eq, Structural, Debug)]
pub struct GoalStatusEntry {
    pub goal_info: GoalInfo,
    pub status: GoalStatus,
}

/// One sample of the status topic: the server's entire goal roster,
/// republished on any change.
#[derive(Clone, Debug)]
pub struct GoalStatusArray {
    pub status_list: Vec<GoalStatusEntry>,
}

/// The ROS type names of the three message types an action is built from,
/// as the caller's type support supplies them.
#[derive(Clone, Debug)]
pub struct ActionTypeSupport {
    pub goal_typename: Vec<u8>,
    pub result_typename: Vec<u8>,
    pub feedback_typename: Vec<u8>,
}

impl ActionTypeSupport {
    pub fn new(goal_typename: Vec<u8>, result_typename: Vec<u8>, feedback_typename: Vec<u8>) -> (r:
        ActionTypeSupport)
        ensures
            r.goal_typename@ == goal_typename@,
            r.result_typename@ == result_typename@,
            r.feedback_typename@ == feedback_typename@,
    {
        ActionTypeSupport { goal_typename, result_typename, feedback_typename }
    }

    pub fn goal_type_name(&self) -> (r: &Vec<u8>)
        ensures
            r@ == self.goal_typename@,
    {
        &self.goal_typename
    }

    pub fn result_type_name(&self) -> (r: &Vec<u8>)
        ensures
            r@ == self.result_typename@,
    {
        &self.result_typename
    }

    pub fn feedback_type_name(&self) -> (r: &Vec<u8>)
        ensures
            r@ == self.feedback_typename@,
    {
        &self.feedback_typename
    }
}

/// Correlation state of one action client: one service client per inner
/// service. Ids on the three services are scoped to three distinct writer
/// identities.
pub struct ActionClientCore {
    pub goal_client: ClientCore,
    pub cancel_client: ClientCore,
    pub result_client: ClientCore,
}

impl ActionClientCore {
    pub open spec fn wf(&self) -> bool {
        &&& self.goal_client.wf()
        &&& self.cancel_client.wf()
        &&& self.result_client.wf()
    }

    pub fn new(goal_client: ClientCore, cancel_client: ClientCore, result_client: ClientCore) -> (r:
        ActionClientCore)
        requires
            goal_client.wf(),
            cancel_client.wf(),
            result_client.wf(),
        ensures
            r.wf(),
            r.goal_client == goal_client,
            r.cancel_client == cancel_client,
            r.result_client == result_client,
    {
        ActionClientCore { goal_client, cancel_client, result_client }
    }

    /// Builds the send-goal request under the given goal id and allocates
    /// its correlation id. The request id recognizes the server's response;
    /// the goal id names the goal from then on.
    pub fn send_goal<G>(&mut self, goal: G, goal_id: GoalId) -> (r: (
        RmwRequestId,
        SendGoalRequest<G>,
    ))
        requires
            old(self).wf(),
            old(self).goal_client.next_seq < u64::MAX,
        ensures
            final(self).wf(),
            send_post(old(self).goal_client, final(self).goal_client, r.0),
            final(self).cancel_client == old(self).cancel_client,
            final(self).result_client == old(self).result_client,
            r.1.goal_id == goal_id,
            r.1.goal == goal,
    {
        let req_id = self.goal_client.send_request();
        (req_id, SendGoalRequest { goal_id, goal })
    }

    /// As `send_goal`, but registering the id for a suspending call.
    pub fn async_send_goal<G>(&mut self, goal: G, goal_id: GoalId) -> (r: (
        RmwRequestId,
        SendGoalRequest<G>,
    ))
        requires
            old(self).wf(),
            old(self).goal_client.next_seq < u64::MAX,
        ensures
            final(self).wf(),
            begin_post(old(self).goal_client, final(self).goal_client, r.0),
            final(self).cancel_client == old(self).cancel_client,
            final(self).result_client == old(self).result_client,
            r.1.goal_id == goal_id,
            r.1.goal == goal,
    {
        let req_id = self.goal_client.begin_async_call();
        (req_id, SendGoalRequest { goal_id, goal })
    }

    /// Builds one cancel request. The wire contract of the two wildcard
    /// fields: a zero goal id cancels all goals (accepted at or before the
    /// stamp, when the stamp is nonzero); a nonzero goal id cancels that
    /// goal, and with a nonzero stamp also every goal accepted at or before
    /// it.
    pub fn cancel_goal_raw(&mut self, goal_id: GoalId, timestamp: Time) -> (r: (
        RmwRequestId,
        CancelGoalRequest,
    ))
        requires
            old(self).wf(),
            old(self).cancel_client.next_seq < u64::MAX,
        ensures
            final(self).wf(),
            send_post(old(self).cancel_client, final(self).cancel_client, r.0),
            final(self).goal_client == old(self).goal_client,
            final(self).result_client == old(self).result_client,
            r.1.goal_info == (GoalInfo { goal_id, stamp: timestamp }),
    {
        let req_id = self.cancel_client.send_request();
        (req_id, CancelGoalRequest { goal_info: GoalInfo { goal_id, stamp: timestamp } })
    }

    /// Cancels one goal regardless of time.
    pub fn cancel_goal(&mut self, goal_id: GoalId) -> (r: (RmwRequestId, CancelGoalRequest))
        requires
            old(self).wf(),
            old(self).cancel_client.next_seq < u64::MAX,
        ensures
            final(self).wf(),
            send_post(old(self).cancel_client, final(self).cancel_client, r.0),
            final(self).goal_client == old(self).goal_client,
            final(self).result_client == old(self).result_client,
            r.1.goal_info == (GoalInfo { goal_id, stamp: Time { sec: 0i32, nanosec: 0u32 } }),
    {
        let t = Time::zero();
        self.cancel_goal_raw(goal_id, t)
    }

    /// Cancels every goal accepted at or before the given time.
    pub fn cancel_all_goals_before(&mut self, timestamp: Time) -> (r: (
        RmwRequestId,
        CancelGoalRequest,
    ))
        requires
            old(self).wf(),
            old(self).cancel_client.next_seq < u64::MAX,
        ensures
            final(self).wf(),
            send_post(old(self).cancel_client, final(self).cancel_client, r.0),
            final(self).goal_client == old(self).goal_client,
            final(self).result_client == old(self).result_client,
            r.1.goal_info == (GoalInfo {
                goal_id: GoalId { hi: 0u64, lo: 0u64 },
                stamp: timestamp,
            }),
    {
        let z = GoalId::zero();
        self.cancel_goal_raw(z, timestamp)
    }

    /// Cancels every goal.
    pub fn cancel_all_goals(&mut self) -> (r: (RmwRequestId, CancelGoalRequest))
        requires
            old(self).wf(),
            old(self).cancel_client.next_seq < u64::MAX,
        ensures
            final(self).wf(),
            send_post(old(self).cancel_client, final(self).cancel_client, r.0),
            final(self).goal_client == old(self).goal_client,
            final(self).result_client == old(self).result_client,
            r.1.goal_info == (GoalInfo {
                goal_id: GoalId { hi: 0u64, lo: 0u64 },
                stamp: Time { sec: 0i32, nanosec: 0u32 },
            }),
    {
        let z = GoalId::zero();
        let t = Time::zero();
        self.cancel_goal_raw(z, t)
    }

    /// Builds the get-result request for a goal. Issued as soon as the goal
    /// is accepted; the server answers only once the goal is terminal.
    pub fn request_result(&mut self, goal_id: GoalId) -> (r: (RmwRequestId, GetResultRequest))
        requires
            old(self).wf(),
            old(self).result_client.next_seq < u64::MAX,
        ensures
            final(self).wf(),
            send_post(old(self).result_client, final(self).result_client, r.0),
            final(self).goal_client == old(self).goal_client,
            final(self).cancel_client == old(self).cancel_client,
            r.1.goal_id == goal_id,
    {
        let req_id = self.result_client.send_request();
        (req_id, GetResultRequest { goal_id })
    }

    /// As `send_goal`, drawing the fresh random goal id itself. The id is
    /// carried in the returned request; distinctness across calls holds with
    /// the probability of distinct 128-bit randoms.
    pub fn send_goal_fresh<G>(&mut self, goal: G) -> (r: (RmwRequestId, SendGoalRequest<G>))
        requires
            old(self).wf(),
            old(self).goal_client.next_seq < u64::MAX,
        ensures
            final(self).wf(),
            send_post(old(self).goal_client, final(self).goal_client, r.0),
            final(self).cancel_client == old(self).cancel_client,
            final(self).result_client == old(self).result_client,
            r.1.goal == goal,
    {
        let goal_id = crate::random::fresh_goal_id();
        self.send_goal(goal, goal_id)
    }

    /// As `async_send_goal`, drawing the fresh random goal id itself.
    pub fn async_send_goal_fresh<G>(&mut self, goal: G) -> (r: (RmwRequestId, SendGoalRequest<G>))
        requires
            old(self).wf(),
            old(self).goal_client.next_seq < u64::MAX,
        ensures
            final(self).wf(),
            begin_post(old(self).goal_client, final(self).goal_client, r.0),
            final(self).cancel_client == old(self).cancel_client,
            final(self).result_client == old(self).result_client,
            r.1.goal == goal,
    {
        let goal_id = crate::random::fresh_goal_id();
        self.async_send_goal(goal, goal_id)
    }

    /// Builds one cancel request and registers its id for a suspending
    /// call.
    pub fn async_cancel_goal(&mut self, goal_id: GoalId, timestamp: Time) -> (r: (
        RmwRequestId,
        CancelGoalRequest,
    ))
        requires
            old(self).wf(),
            old(self).cancel_client.next_seq < u64::MAX,
        ensures
            final(self).wf(),
            begin_post(old(self).cancel_client, final(self).cancel_client, r.0),
            final(self).goal_client == old(self).goal_client,
            final(self).result_client == old(self).result_client,
            r.1.goal_info == (GoalInfo { goal_id, stamp: timestamp }),
    {
        let req_id = self.cancel_client.begin_async_call();
        (req_id, CancelGoalRequest { goal_info: GoalInfo { goal_id, stamp: timestamp } })
    }

    /// Builds the get-result request and registers its id for a suspending
    /// call; the reply comes once the goal is terminal.
    pub fn async_request_result(&mut self, goal_id: GoalId) -> (r: (RmwRequestId, GetResultRequest))
        requires
            old(self).wf(),
            old(self).result_client.next_seq < u64::MAX,
        ensures
            final(self).wf(),
            begin_post(old(self).result_client, final(self).result_client, r.0),
            final(self).goal_client == old(self).goal_client,
            final(self).cancel_client == old(self).cancel_client,
            r.1.goal_id == goal_id,
    {
        let req_id = self.result_client.begin_async_call();
        (req_id, GetResultRequest { goal_id })
    }
}

/// The feedback payload of the first queued feedback message for the given
/// goal, if any; feedback on other goals is dropped.
pub open spec fn spec_first_feedback_for<F>(s: Seq<FeedbackMessage<F>>, goal_id: GoalId) -> Option<
    F,
>
    decreases s.len(),
{
    if s.len() == 0 {
        None
    } else if s[0].goal_id == goal_id {
        Some(s[0].feedback)
    } else {
        spec_first_feedback_for(s.drop_first(), goal_id)
    }
}

/// Poll-style feedback receive: drains the queued feedback messages and
/// returns the first one for the given goal, discarding feedback on other
/// goals.
pub fn drain_feedback_for<F>(msgs: Vec<FeedbackMessage<F>>, goal_id: GoalId) -> (r: Option<F>)
    ensures
        r == spec_first_feedback_for(msgs@, goal_id),
{
    let mut v = msgs;
    loop
        invariant
            spec_first_feedback_for(msgs@, goal_id) == spec_first_feedback_for(v@, goal_id),
        decreases v@.len(),
    {
        if v.len() == 0 {
            return None;
        }
        let ghost pre = v@;
        let m = v.remove(0);
        proof {
            assert(pre[0] == m);
            assert(v@ =~= pre.drop_first());
        }
        if m.goal_id == goal_id {
            return Some(m.feedback);
        }
    }
}

/// The roster entry for one goal, if the roster holds one: the projection
/// the per-goal status stream applies to each published array.
pub open spec fn spec_status_for_goal(s: Seq<GoalStatusEntry>, goal_id: GoalId) -> Option<
    GoalStatusEntry,
>
    decreases s.len(),
{
    if s.len() == 0 {
        None
    } else if s[0].goal_info.goal_id == goal_id {
        Some(s[0])
    } else {
        spec_status_for_goal(s.drop_first(), goal_id)
    }
}

/// Projects one published status array to the entry for the given goal.
pub fn status_for_goal(gsa: &GoalStatusArray, goal_id: GoalId) -> (r: Option<GoalStatusEntry>)
    ensures
        r == spec_status_for_goal(gsa.status_list@, goal_id),
{
    let mut i: usize = 0;
    proof {
        assert(gsa.status_list@.skip(0) =~= gsa.status_list@);
    }
    while i < gsa.status_list.len()
        invariant
            0 <= i <= gsa.status_list@.len(),
            spec_status_for_goal(gsa.status_list@, goal_id) == spec_status_for_goal(
                gsa.status_list@.skip(i as int),
                goal_id,
            ),
        decreases gsa.status_list@.len() - i,
    {
        let entry = gsa.status_list[i];
        proof {
            let rest = gsa.status_list@.skip(i as int);
            assert(rest[0] == entry);
            assert(rest.drop_first() =~= gsa.status_list@.skip(i as int + 1));
        }
        if entry.goal_info.goal_id == goal_id {
            return Some(entry);
        }
        i = i + 1;
    }
    proof {
        assert(gsa.status_list@.skip(i as int).len() == 0);
    }
    None
}

} // verus!
