//! The action server's goal table: one record per received goal, the state
//! machine over the records, and the cancel policy.
//!
//! Every operation either leaves the table alone, adds one fresh record in
//! its initial status, discards one still-unaccepted record, or moves
//! statuses forward along the machine — so the roster the status topic
//! publishes shows every accepted goal as a monotone chain.

use vstd::prelude::*;
use crate::action::{CancelGoalResponse, CancelReturnCode, GetResultResponse, GoalInfo, GoalStatusArray, GoalStatusEntry, SendGoalResponse};
use crate::errors::GoalError;
use crate::ids::{GoalId, RmwRequestId, Time};
use crate::status::{status_step, GoalStatus};

verus! {

/// Everything the server keeps about one goal: its id, where it stands in
/// the machine, the goal payload, when it was accepted, the send-goal
/// request still awaiting its reply, and — once terminal — the stored
/// result and any get-result request that arrived early.
pub struct GoalRecord<G, R> {
    pub goal_id: GoalId,
    pub status: GoalStatus,
    pub goal: G,
    pub accepted_at: Time,
    pub send_goal_req: RmwRequestId,
    pub result: Option<R>,
    pub result_req: Option<RmwRequestId>,
}

/// Handle to a goal just received, still to be accepted or rejected.
#[derive(Clone, Copy, PartialEq, Eq, Structural, Debug)]
pub struct NewGoalHandle {
    pub goal_id: GoalId,
    pub req_id: RmwRequestId,
}

/// Handle to an accepted goal.
#[derive(Clone, Copy, PartialEq, Eq, Structural, Debug)]
pub struct AcceptedGoalHandle {
    pub goal_id: GoalId,
}

/// Handle to an executing goal.
#[derive(Clone, Copy, PartialEq, Eq, Structural, Debug)]
pub struct ExecutingGoalHandle {
    pub goal_id: GoalId,
}

/// Handle to a goal whose cancel request was accepted.
#[derive(Clone, Copy, PartialEq, Eq, Structural, Debug)]
pub struct CancelingGoalHandle {
    pub goal_id: GoalId,
}

/// The server's goal table.
pub struct GoalTable<G, R> {
    pub goals: Vec<GoalRecord<G, R>>,
}

impl<G, R> GoalTable<G, R> {
    /// No goal id appears twice.
    pub open spec fn wf(&self) -> bool {
        forall|i: int, j: int|
            #![trigger self.goals@[i].goal_id, self.goals@[j].goal_id]
            0 <= i < j < self.goals@.len() ==> self.goals@[i].goal_id != self.goals@[j].goal_id
    }

    pub open spec fn spec_contains(&self, id: GoalId) -> bool {
        exists|i: int| 0 <= i < self.goals@.len() && self.goals@[i].goal_id == id
    }

    /// The index of the record with the given id (meaningful when the id is
    /// in the table).
    pub open spec fn spec_index_of(&self, id: GoalId) -> int {
        choose|i: int| 0 <= i < self.goals@.len() && self.goals@[i].goal_id == id
    }

    pub open spec fn spec_status_of(&self, id: GoalId) -> GoalStatus {
        self.goals@[self.spec_index_of(id)].status
    }

    pub fn new() -> (r: GoalTable<G, R>)
        ensures
            r.wf(),
            r.goals@.len() == 0,
    {
        GoalTable { goals: Vec::new() }
    }
}

/// In a well-formed table the id picks out one index.
pub proof fn lemma_index_unique<G, R>(t: &GoalTable<G, R>, id: GoalId, i: int)
    requires
        t.wf(),
        0 <= i < t.goals@.len(),
        t.goals@[i].goal_id == id,
    ensures
        t.spec_contains(id),
        t.spec_index_of(id) == i,
        t.spec_status_of(id) == t.goals@[i].status,
{
    assert(t.spec_contains(id));
    let j = t.spec_index_of(id);
    assert(0 <= j < t.goals@.len() && t.goals@[j].goal_id == id);
}

/// Record changes that only move statuses forward: ids stay in place and
/// each status is unchanged or one allowed transition on.
pub open spec fn statuses_advance<G, R>(
    pre: Seq<GoalRecord<G, R>>,
    post: Seq<GoalRecord<G, R>>,
) -> bool {
    &&& post.len() == pre.len()
    &&& (forall|j: int|
        0 <= j < pre.len() ==> (#[trigger] post[j]).goal_id == pre[j].goal_id)
    &&& (forall|j: int|
        0 <= j < pre.len() ==> (post[j].status == pre[j].status || status_step(
            pre[j].status,
            (#[trigger] post[j]).status,
        )))
}

/// Any state change the goal table can make: nothing; one fresh record in
/// the initial status; discarding one record never accepted; or statuses
/// moving forward.
pub open spec fn table_step<G, R>(pre: GoalTable<G, R>, post: GoalTable<G, R>) -> bool {
    &&& post.wf()
    &&& {
        ||| post.goals@ == pre.goals@
        ||| (exists|rec: GoalRecord<G, R>|
            post.goals@ == #[trigger] pre.goals@.push(rec) && rec.status == GoalStatus::Unknown
                && !pre.spec_contains(rec.goal_id))
        ||| (exists|i: int|
            0 <= i < pre.goals@.len() && pre.goals@[i].status == GoalStatus::Unknown
                && post.goals@ == #[trigger] pre.goals@.remove(i))
        ||| statuses_advance(pre.goals@, post.goals@)
    }
}

impl<G, R> GoalTable<G, R> {
    fn find(&self, id: GoalId) -> (r: Option<usize>)
        requires
            self.wf(),
        ensures
            r matches Some(i) ==> (i as int) < self.goals@.len() && self.goals@[i as int].goal_id
                == id && self.spec_index_of(id) == i && self.spec_contains(id),
            r.is_none() ==> !self.spec_contains(id),
    {
        let mut i: usize = 0;
        while i < self.goals.len()
            invariant
                self.wf(),
                0 <= i <= self.goals@.len(),
                forall|j: int| 0 <= j < i ==> self.goals@[j].goal_id != id,
            decreases self.goals@.len() - i,
        {
            if self.goals[i].goal_id == id {
                proof {
                    lemma_index_unique(self, id, i as int);
                }
                return Some(i);
            }
            i = i + 1;
        }
        None
    }

    /// Takes in one goal request. A fresh goal id enters the table in the
    /// `Unknown` status and yields the handle for accepting or rejecting; a
    /// duplicate id is dropped and the request is left without a response.
    pub fn receive_new_goal(&mut self, req_id: RmwRequestId, goal_id: GoalId, goal: G) -> (r:
        Option<NewGoalHandle>)
        requires
            old(self).wf(),
        ensures
            final(self).wf(),
            table_step(*old(self), *final(self)),
            r.is_some() == !old(self).spec_contains(goal_id),
            r matches Some(h) ==> h == (NewGoalHandle { goal_id, req_id })
                && final(self).goals@.len() == old(self).goals@.len() + 1 && final(self).goals@.last().goal_id == goal_id && final(self).goals@.last().status
                == GoalStatus::Unknown && final(self).goals@.last().goal == goal && final(self).goals@.last().send_goal_req == req_id && final(self).goals@.last().result.is_none()
                && final(self).goals@.last().result_req.is_none() && final(self).goals@.drop_last()
                == old(self).goals@,
            r.is_none() ==> final(self).goals@ == old(self).goals@,
    {
        match self.find(goal_id) {
            Some(_) => None,
            None => {
                let rec = GoalRecord {
                    goal_id,
                    status: GoalStatus::Unknown,
                    goal,
                    accepted_at: Time::zero(),
                    send_goal_req: req_id,
                    result: None,
                    result_req: None,
                };
                self.goals.push(rec);
                proof {
                    let pre = old(self).goals@;
                    let post = self.goals@;
                    assert(post.drop_last() =~= pre);
                    assert forall|i: int, j: int|
                        #![trigger post[i].goal_id, post[j].goal_id]
                        0 <= i < j < post.len() implies post[i].goal_id != post[j].goal_id by {
                        if j < pre.len() {
                            assert(post[i] == pre[i] && post[j] == pre[j]);
                        } else {
                            assert(post[i] == pre[i]);
                            assert(!old(self).spec_contains(goal_id) ==> pre[i].goal_id != goal_id);
                        }
                    }
                }
                Some(NewGoalHandle { goal_id, req_id })
            },
        }
    }

    /// Replaces the record at `i` (same goal id) and proves the table shape.
    fn replace_at(&mut self, i: usize, rec: GoalRecord<G, R>)
        requires
            old(self).wf(),
            (i as int) < old(self).goals@.len(),
            rec.goal_id == old(self).goals@[i as int].goal_id,
        ensures
            final(self).wf(),
            final(self).goals@ == old(self).goals@.update(i as int, rec),
    {
        self.goals.remove(i);
        self.goals.insert(i, rec);
        proof {
            let pre = old(self).goals@;
            let post = self.goals@;
            assert(post =~= pre.update(i as int, rec));
            assert forall|a: int, b: int|
                #![trigger post[a].goal_id, post[b].goal_id]
                0 <= a < b < post.len() implies post[a].goal_id != post[b].goal_id by {
                assert(post[a].goal_id == pre[a].goal_id && post[b].goal_id == pre[b].goal_id);
            }
        }
    }

    /// Accepts a received goal: `Unknown` becomes `Accepted`, stamped `now`,
    /// and the client is to be told `accepted: true` in reply to the goal
    /// request. Fails with `NoSuchGoal` for an unknown id and
    /// `WrongGoalState` for a goal past `Unknown`.
    pub fn accept_goal(&mut self, handle: NewGoalHandle, now: Time) -> (r: Result<
        (AcceptedGoalHandle, SendGoalResponse),
        GoalError,
    >)
        requires
            old(self).wf(),
        ensures
            final(self).wf(),
            table_step(*old(self), *final(self)),
            r.is_ok() == (old(self).spec_contains(handle.goal_id) && old(self).spec_status_of(
                handle.goal_id,
            ) == GoalStatus::Unknown),
            r == Err::<(AcceptedGoalHandle, SendGoalResponse), GoalError>(GoalError::NoSuchGoal)
                <==> !old(self).spec_contains(handle.goal_id),
            r == Err::<(AcceptedGoalHandle, SendGoalResponse), GoalError>(GoalError::WrongGoalState)
                <==> (old(self).spec_contains(handle.goal_id) && old(self).spec_status_of(
                handle.goal_id,
            ) != GoalStatus::Unknown),
            r.is_err() ==> final(self).goals@ == old(self).goals@,
            r matches Ok(ok) ==> ({
                let i = old(self).spec_index_of(handle.goal_id);
                &&& ok.0 == (AcceptedGoalHandle { goal_id: handle.goal_id })
                &&& ok.1 == (SendGoalResponse { accepted: true, stamp: now })
                &&& final(self).goals@ == old(self).goals@.update(
                    i,
                    GoalRecord {
                        status: GoalStatus::Accepted,
                        accepted_at: now,
                        ..old(self).goals@[i]
                    },
                )
                &&& final(self).spec_status_of(handle.goal_id) == GoalStatus::Accepted
            }),
    {
        match self.find(handle.goal_id) {
            None => Err(GoalError::NoSuchGoal),
            Some(i) => {
                let status = self.goals[i].status;
                match status {
                    GoalStatus::Unknown => {
                        let mut rec = self.goals.remove(i);
                        rec.status = GoalStatus::Accepted;
                        rec.accepted_at = now;
                        self.goals.insert(i, rec);
                        proof {
                            let pre = old(self).goals@;
                            let post = self.goals@;
                            let reci = GoalRecord {
                                status: GoalStatus::Accepted,
                                accepted_at: now,
                                ..pre[i as int]
                            };
                            assert(post =~= pre.update(i as int, reci));
                            assert forall|a: int, b: int|
                                #![trigger post[a].goal_id, post[b].goal_id]
                                0 <= a < b < post.len() implies post[a].goal_id
                                != post[b].goal_id by {
                                assert(post[a].goal_id == pre[a].goal_id && post[b].goal_id
                                    == pre[b].goal_id);
                            }
                            lemma_index_unique(self, handle.goal_id, i as int);
                            assert(statuses_advance(pre, post));
                        }
                        Ok((
                            AcceptedGoalHandle { goal_id: handle.goal_id },
                            SendGoalResponse { accepted: true, stamp: now },
                        ))
                    },
                    _ => Err(GoalError::WrongGoalState),
                }
            },
        }
    }

    /// Rejects a received goal: the client is to be told `accepted: false`,
    /// the record is discarded and the id is free again. No status is
    /// published for a rejection. Fails like `accept_goal`.
    pub fn reject_goal(&mut self, handle: NewGoalHandle, now: Time) -> (r: Result<
        SendGoalResponse,
        GoalError,
    >)
        requires
            old(self).wf(),
        ensures
            final(self).wf(),
            table_step(*old(self), *final(self)),
            r.is_ok() == (old(self).spec_contains(handle.goal_id) && old(self).spec_status_of(
                handle.goal_id,
            ) == GoalStatus::Unknown),
            r == Err::<SendGoalResponse, GoalError>(GoalError::NoSuchGoal) <==> !old(self).spec_contains(handle.goal_id),
            r == Err::<SendGoalResponse, GoalError>(GoalError::WrongGoalState) <==> (old(self).spec_contains(handle.goal_id) && old(self).spec_status_of(handle.goal_id)
                != GoalStatus::Unknown),
            r.is_err() ==> final(self).goals@ == old(self).goals@,
            r matches Ok(resp) ==> resp == (SendGoalResponse { accepted: false, stamp: now })
                && final(self).goals@ == old(self).goals@.remove(
                old(self).spec_index_of(handle.goal_id),
            ) && !final(self).spec_contains(handle.goal_id),
    {
        match self.find(handle.goal_id) {
            None => Err(GoalError::NoSuchGoal),
            Some(i) => {
                let status = self.goals[i].status;
                match status {
                    GoalStatus::Unknown => {
                        self.goals.remove(i);
                        proof {
                            let pre = old(self).goals@;
                            let post = self.goals@;
                            assert forall|a: int, b: int|
                                #![trigger post[a].goal_id, post[b].goal_id]
                                0 <= a < b < post.len() implies post[a].goal_id
                                != post[b].goal_id by {
                                let pa: int = if a < i as int {
                                    a
                                } else {
                                    a + 1
                                };
                                let pb: int = if b < i as int {
                                    b
                                } else {
                                    b + 1
                                };
                                assert(post[a].goal_id == pre[pa].goal_id && post[b].goal_id
                                    == pre[pb].goal_id);
                            }
                            assert forall|k: int|
                                0 <= k < post.len() implies #[trigger] post[k].goal_id
                                != handle.goal_id by {
                                if k < i as int {
                                    assert(post[k] == pre[k]);
                                } else {
                                    assert(post[k] == pre[k + 1]);
                                }
                            }
                        }
                        Ok(SendGoalResponse { accepted: false, stamp: now })
                    },
                    _ => Err(GoalError::WrongGoalState),
                }
            },
        }
    }

    /// Starts executing an accepted goal. Fails with `NoSuchGoal` for an
    /// unknown id and `WrongGoalState` for a goal not `Accepted`.
    pub fn start_executing_goal(&mut self, handle: AcceptedGoalHandle) -> (r: Result<
        ExecutingGoalHandle,
        GoalError,
    >)
        requires
            old(self).wf(),
        ensures
            final(self).wf(),
            table_step(*old(self), *final(self)),
            r.is_ok() == (old(self).spec_contains(handle.goal_id) && old(self).spec_status_of(
                handle.goal_id,
            ) == GoalStatus::Accepted),
            r == Err::<ExecutingGoalHandle, GoalError>(GoalError::NoSuchGoal) <==> !old(self).spec_contains(handle.goal_id),
            r == Err::<ExecutingGoalHandle, GoalError>(GoalError::WrongGoalState) <==> (old(self).spec_contains(handle.goal_id) && old(self).spec_status_of(handle.goal_id)
                != GoalStatus::Accepted),
            r.is_err() ==> final(self).goals@ == old(self).goals@,
            r matches Ok(h) ==> ({
                let i = old(self).spec_index_of(handle.goal_id);
                &&& h == (ExecutingGoalHandle { goal_id: handle.goal_id })
                &&& final(self).goals@ == old(self).goals@.update(
                    i,
                    GoalRecord { status: GoalStatus::Executing, ..old(self).goals@[i] },
                )
                &&& final(self).spec_status_of(handle.goal_id) == GoalStatus::Executing
            }),
    {
        match self.find(handle.goal_id) {
            None => Err(GoalError::NoSuchGoal),
            Some(i) => {
                let status = self.goals[i].status;
                match status {
                    GoalStatus::Accepted => {
                        let mut rec = self.goals.remove(i);
                        rec.status = GoalStatus::Executing;
                        self.goals.insert(i, rec);
                        proof {
                            let pre = old(self).goals@;
                            let post = self.goals@;
                            let reci = GoalRecord { status: GoalStatus::Executing, ..pre[i as int] };
                            assert(post =~= pre.update(i as int, reci));
                            assert forall|a: int, b: int|
                                #![trigger post[a].goal_id, post[b].goal_id]
                                0 <= a < b < post.len() implies post[a].goal_id
                                != post[b].goal_id by {
                                assert(post[a].goal_id == pre[a].goal_id && post[b].goal_id
                                    == pre[b].goal_id);
                            }
                            lemma_index_unique(self, handle.goal_id, i as int);
                            assert(statuses_advance(pre, post));
                        }
                        Ok(ExecutingGoalHandle { goal_id: handle.goal_id })
                    },
                    _ => Err(GoalError::WrongGoalState),
                }
            },
        }
    }
}

/// What finishing a goal (succeed, abort, cancel done) does: the status
/// becomes the given terminal one; if a get-result request was already
/// waiting it is answered now and the record keeps nothing, otherwise the
/// result is stored for the request still to come.
pub open spec fn terminal_post<G, R>(
    pre: GoalTable<G, R>,
    post: GoalTable<G, R>,
    goal_id: GoalId,
    from: GoalStatus,
    to: GoalStatus,
    result: R,
    r: Result<Option<(RmwRequestId, GetResultResponse<R>)>, GoalError>,
) -> bool {
    &&& r.is_ok() == (pre.spec_contains(goal_id) && pre.spec_status_of(goal_id) == from)
    &&& (r == Err::<Option<(RmwRequestId, GetResultResponse<R>)>, GoalError>(
        GoalError::NoSuchGoal,
    ) <==> !pre.spec_contains(goal_id))
    &&& (r == Err::<Option<(RmwRequestId, GetResultResponse<R>)>, GoalError>(
        GoalError::WrongGoalState,
    ) <==> (pre.spec_contains(goal_id) && pre.spec_status_of(goal_id) != from))
    &&& (r.is_err() ==> post.goals@ == pre.goals@)
    &&& (r matches Ok(out) ==> ({
        let i = pre.spec_index_of(goal_id);
        let pre_rec = pre.goals@[i];
        &&& post.goals@.len() == pre.goals@.len()
        &&& (forall|j: int|
            0 <= j < pre.goals@.len() && j != i ==> post.goals@[j] == #[trigger] pre.goals@[j])
        &&& post.spec_status_of(goal_id) == to
        &&& post.goals@[i].goal_id == goal_id
        &&& post.goals@[i].status == to
        &&& post.goals@[i].accepted_at == pre_rec.accepted_at
        &&& post.goals@[i].result_req.is_none()
        &&& (match pre_rec.result_req {
            Some(req) => out == Some((req, GetResultResponse { status: to, result }))
                && post.goals@[i].result.is_none(),
            None => out.is_none() && post.goals@[i].result == Some(result),
        })
    }))
}

impl<G, R> GoalTable<G, R> {
    /// Moves a goal from `from` to the terminal status `to`, storing or
    /// handing out the result.
    fn terminal_transition(
        &mut self,
        goal_id: GoalId,
        from: GoalStatus,
        to: GoalStatus,
        result: R,
    ) -> (r: Result<Option<(RmwRequestId, GetResultResponse<R>)>, GoalError>)
        requires
            old(self).wf(),
            status_step(from, to),
            to.spec_is_terminal(),
        ensures
            final(self).wf(),
            table_step(*old(self), *final(self)),
            terminal_post(*old(self), *final(self), goal_id, from, to, result, r),
    {
        match self.find(goal_id) {
            None => Err(GoalError::NoSuchGoal),
            Some(i) => {
                let status = self.goals[i].status;
                if status == from {
                    let mut rec = self.goals.remove(i);
                    rec.status = to;
                    let out = match rec.result_req {
                        Some(req) => {
                            rec.result_req = None;
                            rec.result = None;
                            let resp = GetResultResponse { status: to, result };
                            Some((req, resp))
                        },
                        None => {
                            rec.result = Some(result);
                            None
                        },
                    };
                    let ghost reci = rec;
                    self.goals.insert(i, rec);
                    proof {
                        let pre = old(self).goals@;
                        let post = self.goals@;
                        assert(post =~= pre.update(i as int, reci));
                        assert forall|a: int, b: int|
                            #![trigger post[a].goal_id, post[b].goal_id]
                            0 <= a < b < post.len() implies post[a].goal_id != post[b].goal_id by {
                            assert(post[a].goal_id == pre[a].goal_id && post[b].goal_id
                                == pre[b].goal_id);
                        }
                        lemma_index_unique(self, goal_id, i as int);
                        assert(statuses_advance(pre, post));
                    }
                    Ok(out)
                } else {
                    Err(GoalError::WrongGoalState)
                }
            },
        }
    }

    /// The goal was reached: `Executing` becomes `Succeeded` and the stored
    /// result will answer the goal's get-result request.
    pub fn succeed_goal(&mut self, handle: ExecutingGoalHandle, result: R) -> (r: Result<
        Option<(RmwRequestId, GetResultResponse<R>)>,
        GoalError,
    >)
        requires
            old(self).wf(),
        ensures
            final(self).wf(),
            table_step(*old(self), *final(self)),
            terminal_post(
                *old(self),
                *final(self),
                handle.goal_id,
                GoalStatus::Executing,
                GoalStatus::Succeeded,
                result,
                r,
            ),
    {
        self.terminal_transition(handle.goal_id, GoalStatus::Executing, GoalStatus::Succeeded,
            result)
    }

    /// The server cannot continue executing the goal: `Executing` becomes
    /// `Aborted`.
    pub fn abort_executing_goal(&mut self, handle: ExecutingGoalHandle, result: R) -> (r: Result<
        Option<(RmwRequestId, GetResultResponse<R>)>,
        GoalError,
    >)
        requires
            old(self).wf(),
        ensures
            final(self).wf(),
            table_step(*old(self), *final(self)),
            terminal_post(
                *old(self),
                *final(self),
                handle.goal_id,
                GoalStatus::Executing,
                GoalStatus::Aborted,
                result,
                r,
            ),
    {
        self.terminal_transition(handle.goal_id, GoalStatus::Executing, GoalStatus::Aborted, result)
    }

    /// The server drops a goal it accepted but never started: `Accepted`
    /// becomes `Aborted`.
    pub fn abort_accepted_goal(&mut self, handle: AcceptedGoalHandle, result: R) -> (r: Result<
        Option<(RmwRequestId, GetResultResponse<R>)>,
        GoalError,
    >)
        requires
            old(self).wf(),
        ensures
            final(self).wf(),
            table_step(*old(self), *final(self)),
            terminal_post(
                *old(self),
                *final(self),
                handle.goal_id,
                GoalStatus::Accepted,
                GoalStatus::Aborted,
                result,
                r,
            ),
    {
        self.terminal_transition(handle.goal_id, GoalStatus::Accepted, GoalStatus::Aborted, result)
    }

    /// A cancel completed: `Canceling` becomes `Canceled`.
    pub fn finish_canceling_goal(&mut self, handle: CancelingGoalHandle, result: R) -> (r: Result<
        Option<(RmwRequestId, GetResultResponse<R>)>,
        GoalError,
    >)
        requires
            old(self).wf(),
        ensures
            final(self).wf(),
            table_step(*old(self), *final(self)),
            terminal_post(
                *old(self),
                *final(self),
                handle.goal_id,
                GoalStatus::Canceling,
                GoalStatus::Canceled,
                result,
                r,
            ),
    {
        self.terminal_transition(handle.goal_id, GoalStatus::Canceling, GoalStatus::Canceled,
            result)
    }

    /// Builds one feedback sample. Feedback is only valid while the goal is
    /// `Executing`.
    pub fn feedback_message<F>(&self, handle: &ExecutingGoalHandle, feedback: F) -> (r: Result<
        crate::action::FeedbackMessage<F>,
        GoalError,
    >)
        requires
            self.wf(),
        ensures
            r.is_ok() == (self.spec_contains(handle.goal_id) && self.spec_status_of(handle.goal_id)
                == GoalStatus::Executing),
            r == Err::<crate::action::FeedbackMessage<F>, GoalError>(GoalError::NoSuchGoal) <==> !self.spec_contains(
                handle.goal_id,
            ),
            r == Err::<crate::action::FeedbackMessage<F>, GoalError>(GoalError::WrongGoalState)
                <==> (self.spec_contains(handle.goal_id) && self.spec_status_of(handle.goal_id)
                != GoalStatus::Executing),
            r matches Ok(m) ==> m.goal_id == handle.goal_id && m.feedback == feedback,
    {
        match self.find(handle.goal_id) {
            None => Err(GoalError::NoSuchGoal),
            Some(i) => {
                let status = self.goals[i].status;
                if status == GoalStatus::Executing {
                    Ok(crate::action::FeedbackMessage { goal_id: handle.goal_id, feedback })
                } else {
                    Err(GoalError::WrongGoalState)
                }
            },
        }
    }

    /// Takes in one get-result request. A terminal goal with its result
    /// still stored is answered at once; otherwise the request is noted and
    /// answered by the terminal transition. Unknown ids are rejected.
    pub fn receive_result_request(&mut self, req_id: RmwRequestId, goal_id: GoalId) -> (r: Result<
        Option<(RmwRequestId, GetResultResponse<R>)>,
        GoalError,
    >)
        requires
            old(self).wf(),
        ensures
            final(self).wf(),
            table_step(*old(self), *final(self)),
            r.is_ok() == old(self).spec_contains(goal_id),
            r == Err::<Option<(RmwRequestId, GetResultResponse<R>)>, GoalError>(
                GoalError::NoSuchGoal,
            ) <==> !old(self).spec_contains(goal_id),
            r.is_err() ==> final(self).goals@ == old(self).goals@,
            r matches Ok(out) ==> ({
                let i = old(self).spec_index_of(goal_id);
                let pre_rec = old(self).goals@[i];
                &&& final(self).goals@.len() == old(self).goals@.len()
                &&& (forall|j: int|
                    0 <= j < old(self).goals@.len() && j != i ==> final(self).goals@[j]
                        == #[trigger] old(self).goals@[j])
                &&& (match pre_rec.result {
                    Some(res) => if pre_rec.status.spec_is_terminal() {
                        &&& out == Some((req_id, GetResultResponse { status: pre_rec.status, result: res }))
                        &&& final(self).goals@[i] == (GoalRecord { result: None::<R>, ..pre_rec })
                    } else {
                        &&& out.is_none()
                        &&& final(self).goals@[i] == (GoalRecord {
                            result_req: Some(req_id),
                            ..pre_rec
                        })
                    },
                    None => out.is_none() && final(self).goals@[i] == (GoalRecord {
                        result_req: Some(req_id),
                        ..pre_rec
                    }),
                })
            }),
    {
        match self.find(goal_id) {
            None => Err(GoalError::NoSuchGoal),
            Some(i) => {
                let terminal = self.goals[i].status.is_terminal();
                let mut rec = self.goals.remove(i);
                let res_opt = rec.result;
                rec.result = None;
                let out = match res_opt {
                    Some(res) => {
                        if terminal {
                            Some((req_id, GetResultResponse { status: rec.status, result: res }))
                        } else {
                            rec.result = Some(res);
                            rec.result_req = Some(req_id);
                            None
                        }
                    },
                    None => {
                        rec.result_req = Some(req_id);
                        None
                    },
                };
                let ghost reci = rec;
                self.goals.insert(i, rec);
                proof {
                    let pre = old(self).goals@;
                    let post = self.goals@;
                    assert(post =~= pre.update(i as int, reci));
                    assert forall|a: int, b: int|
                        #![trigger post[a].goal_id, post[b].goal_id]
                        0 <= a < b < post.len() implies post[a].goal_id != post[b].goal_id by {
                        assert(post[a].goal_id == pre[a].goal_id && post[b].goal_id
                            == pre[b].goal_id);
                    }
                    assert(statuses_advance(pre, post));
                }
                Ok(out)
            },
        }
    }
}

/// Whether one cancel request names this record. Only accepted or executing
/// goals can be canceled. The wire policy: zero id and zero stamp cancel
/// everything; a zero id with a stamp cancels what was accepted at or
/// before it; an id with zero stamp cancels that goal alone; an id with a
/// stamp cancels that goal and everything accepted at or before the stamp.
pub open spec fn cancel_matches<G, R>(rec: GoalRecord<G, R>, info: GoalInfo) -> bool {
    &&& (rec.status == GoalStatus::Accepted || rec.status == GoalStatus::Executing)
    &&& {
        let zid = info.goal_id.spec_is_zero();
        let zt = info.stamp.spec_is_zero();
        if zid && zt {
            true
        } else if zid {
            rec.accepted_at.spec_le(info.stamp)
        } else if zt {
            rec.goal_id == info.goal_id
        } else {
            rec.goal_id == info.goal_id || rec.accepted_at.spec_le(info.stamp)
        }
    }
}

/// The ids a cancel request names, in table order.
pub open spec fn spec_cancel_candidates<G, R>(s: Seq<GoalRecord<G, R>>, info: GoalInfo) -> Seq<
    GoalId,
>
    decreases s.len(),
{
    if s.len() == 0 {
        Seq::empty()
    } else {
        let rest = spec_cancel_candidates(s.drop_last(), info);
        if cancel_matches(s.last(), info) {
            rest.push(s.last().goal_id)
        } else {
            rest
        }
    }
}

/// The goals that start canceling when the server accepts the listed ids:
/// those of the listed goals still accepted or executing, in table order.
pub open spec fn spec_canceling_infos<G, R>(s: Seq<GoalRecord<G, R>>, accepted: Seq<GoalId>) -> Seq<
    GoalInfo,
>
    decreases s.len(),
{
    if s.len() == 0 {
        Seq::empty()
    } else {
        let rest = spec_canceling_infos(s.drop_last(), accepted);
        let rec = s.last();
        if accepted.contains(rec.goal_id) && (rec.status == GoalStatus::Accepted || rec.status
            == GoalStatus::Executing) {
            rest.push(GoalInfo { goal_id: rec.goal_id, stamp: rec.accepted_at })
        } else {
            rest
        }
    }
}

fn ids_contain(ids: &Vec<GoalId>, id: GoalId) -> (r: bool)
    ensures
        r == ids@.contains(id),
{
    let mut i: usize = 0;
    while i < ids.len()
        invariant
            0 <= i <= ids@.len(),
            forall|j: int| 0 <= j < i ==> ids@[j] != id,
        decreases ids@.len() - i,
    {
        if ids[i] == id {
            return true;
        }
        i = i + 1;
    }
    false
}

impl<G, R> GoalTable<G, R> {
    /// The goals a cancel request names, per the wire policy: what
    /// `receive_cancel_request` hands the server's owner to decide over.
    pub fn cancel_candidates(&self, info: &GoalInfo) -> (r: Vec<GoalId>)
        ensures
            r@ == spec_cancel_candidates(self.goals@, *info),
    {
        let mut out: Vec<GoalId> = Vec::new();
        let mut i: usize = 0;
        proof {
            assert(self.goals@.subrange(0, 0) =~= Seq::<GoalRecord<G, R>>::empty());
        }
        while i < self.goals.len()
            invariant
                0 <= i <= self.goals@.len(),
                out@ == spec_cancel_candidates(self.goals@.subrange(0, i as int), *info),
            decreases self.goals@.len() - i,
        {
            let zid = info.goal_id.is_zero();
            let zt = info.stamp.is_zero();
            let status = self.goals[i].status;
            let status_ok = status == GoalStatus::Accepted || status == GoalStatus::Executing;
            let policy_ok = if zid && zt {
                true
            } else if zid {
                self.goals[i].accepted_at.le(&info.stamp)
            } else if zt {
                self.goals[i].goal_id == info.goal_id
            } else {
                self.goals[i].goal_id == info.goal_id || self.goals[i].accepted_at.le(&info.stamp)
            };
            if status_ok && policy_ok {
                out.push(self.goals[i].goal_id);
            }
            i = i + 1;
            proof {
                let cur = self.goals@.subrange(0, i as int);
                assert(cur.drop_last() =~= self.goals@.subrange(0, i as int - 1));
                assert(cur.last() == self.goals@[i as int - 1]);
            }
        }
        proof {
            assert(self.goals@.subrange(0, self.goals@.len() as int) =~= self.goals@);
        }
        out
    }

    /// Accepts cancel requests for the listed goals: each listed goal still
    /// accepted or executing moves to `Canceling`; every other goal keeps
    /// its state. Returns the cancel response: the goals now canceling, and
    /// whether any cancel was accepted.
    pub fn respond_to_cancel_requests(&mut self, accepted: &Vec<GoalId>) -> (r: CancelGoalResponse)
        requires
            old(self).wf(),
        ensures
            final(self).wf(),
            table_step(*old(self), *final(self)),
            final(self).goals@.len() == old(self).goals@.len(),
            forall|j: int|
                0 <= j < old(self).goals@.len() ==> #[trigger] final(self).goals@[j] == ({
                    let pre_rec = old(self).goals@[j];
                    if accepted@.contains(pre_rec.goal_id) && (pre_rec.status
                        == GoalStatus::Accepted || pre_rec.status == GoalStatus::Executing) {
                        GoalRecord { status: GoalStatus::Canceling, ..pre_rec }
                    } else {
                        pre_rec
                    }
                }),
            r.goals_canceling@ == spec_canceling_infos(old(self).goals@, accepted@),
            r.return_code == (if spec_canceling_infos(old(self).goals@, accepted@).len() > 0 {
                CancelReturnCode::Accepted
            } else {
                CancelReturnCode::Rejected
            }),
    {
        let mut infos: Vec<GoalInfo> = Vec::new();
        let mut i: usize = 0;
        proof {
            assert(old(self).goals@.subrange(0, 0) =~= Seq::<GoalRecord<G, R>>::empty());
        }
        while i < self.goals.len()
            invariant
                old(self).wf(),
                0 <= i <= self.goals@.len(),
                self.goals@.len() == old(self).goals@.len(),
                forall|j: int|
                    0 <= j < i ==> #[trigger] self.goals@[j] == ({
                        let pre_rec = old(self).goals@[j];
                        if accepted@.contains(pre_rec.goal_id) && (pre_rec.status
                            == GoalStatus::Accepted || pre_rec.status == GoalStatus::Executing) {
                            GoalRecord { status: GoalStatus::Canceling, ..pre_rec }
                        } else {
                            pre_rec
                        }
                    }),
                forall|j: int|
                    i <= j < self.goals@.len() ==> #[trigger] self.goals@[j] == old(self).goals@[j],
                infos@ == spec_canceling_infos(old(self).goals@.subrange(0, i as int), accepted@),
            decreases self.goals@.len() - i,
        {
            let listed = ids_contain(accepted, self.goals[i].goal_id);
            let status = self.goals[i].status;
            let status_ok = status == GoalStatus::Accepted || status == GoalStatus::Executing;
            if listed && status_ok {
                infos.push(GoalInfo { goal_id: self.goals[i].goal_id, stamp: self.goals[i].accepted_at });
                let ghost pre_loop = self.goals@;
                let mut rec = self.goals.remove(i);
                rec.status = GoalStatus::Canceling;
                let ghost reci = rec;
                self.goals.insert(i, rec);
                proof {
                    assert(self.goals@ =~= pre_loop.update(i as int, reci));
                    assert(reci == (GoalRecord {
                        status: GoalStatus::Canceling,
                        ..old(self).goals@[i as int]
                    }));
                }
            }
            i = i + 1;
            proof {
                let cur = old(self).goals@.subrange(0, i as int);
                assert(cur.drop_last() =~= old(self).goals@.subrange(0, i as int - 1));
                assert(cur.last() == old(self).goals@[i as int - 1]);
            }
        }
        proof {
            assert(old(self).goals@.subrange(0, old(self).goals@.len() as int) =~= old(
                self,
            ).goals@);
            let pre = old(self).goals@;
            let post = self.goals@;
            assert forall|a: int, b: int|
                #![trigger post[a].goal_id, post[b].goal_id]
                0 <= a < b < post.len() implies post[a].goal_id != post[b].goal_id by {
                assert(post[a].goal_id == pre[a].goal_id && post[b].goal_id == pre[b].goal_id);
            }
            assert(statuses_advance(pre, post));
        }
        let return_code = if infos.len() > 0 {
            CancelReturnCode::Accepted
        } else {
            CancelReturnCode::Rejected
        };
        CancelGoalResponse { return_code, goals_canceling: infos }
    }

    /// The full roster the status topic publishes: one entry per goal, in
    /// table order, carrying the goal id, its acceptance stamp and its
    /// status.
    pub fn status_array(&self) -> (r: GoalStatusArray)
        ensures
            r.status_list@.len() == self.goals@.len(),
            forall|i: int|
                0 <= i < self.goals@.len() ==> #[trigger] r.status_list@[i] == spec_roster_entry(
                    self.goals@[i],
                ),
    {
        let mut list: Vec<GoalStatusEntry> = Vec::new();
        let mut i: usize = 0;
        while i < self.goals.len()
            invariant
                0 <= i <= self.goals@.len(),
                list@.len() == i,
                forall|j: int|
                    0 <= j < i ==> #[trigger] list@[j] == (GoalStatusEntry {
                        goal_info: GoalInfo {
                            goal_id: self.goals@[j].goal_id,
                            stamp: self.goals@[j].accepted_at,
                        },
                        status: self.goals@[j].status,
                    }),
            decreases self.goals@.len() - i,
        {
            list.push(GoalStatusEntry {
                goal_info: GoalInfo {
                    goal_id: self.goals[i].goal_id,
                    stamp: self.goals[i].accepted_at,
                },
                status: self.goals[i].status,
            });
            i = i + 1;
        }
        GoalStatusArray { status_list: list }
    }
}

/// One step keeps an already-accepted goal in the table and moves its
/// status at most one transition forward.
proof fn lemma_step_tracks_goal<G, R>(pre: GoalTable<G, R>, post: GoalTable<G, R>, id: GoalId)
    requires
        pre.wf(),
        table_step(pre, post),
        pre.spec_contains(id),
        pre.spec_status_of(id) != GoalStatus::Unknown,
    ensures
        post.wf(),
        post.spec_contains(id),
        post.spec_status_of(id) == pre.spec_status_of(id) || status_step(
            pre.spec_status_of(id),
            post.spec_status_of(id),
        ),
        post.spec_status_of(id) != GoalStatus::Unknown,
        pre.spec_status_of(id).spec_is_terminal() ==> post.spec_status_of(id)
            == pre.spec_status_of(id),
{
    let pi = pre.spec_index_of(id);
    assert(0 <= pi < pre.goals@.len() && pre.goals@[pi].goal_id == id);
    lemma_index_unique(&pre, id, pi);
    if post.goals@ == pre.goals@ {
        lemma_index_unique(&post, id, pi);
    } else if exists|rec: GoalRecord<G, R>|
        post.goals@ == #[trigger] pre.goals@.push(rec) && rec.status == GoalStatus::Unknown
            && !pre.spec_contains(rec.goal_id) {
        let rec = choose|rec: GoalRecord<G, R>|
            post.goals@ == #[trigger] pre.goals@.push(rec) && rec.status == GoalStatus::Unknown
                && !pre.spec_contains(rec.goal_id);
        assert(post.goals@[pi] == pre.goals@[pi]);
        lemma_index_unique(&post, id, pi);
    } else if exists|k: int|
        0 <= k < pre.goals@.len() && pre.goals@[k].status == GoalStatus::Unknown && post.goals@
            == #[trigger] pre.goals@.remove(k) {
        let k = choose|k: int|
            0 <= k < pre.goals@.len() && pre.goals@[k].status == GoalStatus::Unknown && post.goals@
                == #[trigger] pre.goals@.remove(k);
        assert(pre.goals@[k].status != pre.goals@[pi].status);
        assert(k != pi);
        if pi < k {
            assert(post.goals@[pi] == pre.goals@[pi]);
            lemma_index_unique(&post, id, pi);
        } else {
            assert(post.goals@[pi - 1] == pre.goals@[pi]);
            lemma_index_unique(&post, id, pi - 1);
        }
    } else {
        assert(statuses_advance(pre.goals@, post.goals@));
        assert(post.goals@[pi].goal_id == id);
        lemma_index_unique(&post, id, pi);
        if post.goals@[pi].status != pre.goals@[pi].status {
            crate::status::lemma_step_forward(pre.goals@[pi].status, post.goals@[pi].status);
        }
    }
}

/// Law: across any run of the goal table, a goal that has been accepted
/// (its status past `Unknown`) stays in the roster, its status only ever
/// moves forward, and once it shows a terminal status it stays in exactly
/// that status.
pub proof fn lemma_goal_status_monotone<G, R>(run: Seq<GoalTable<G, R>>, id: GoalId, i: int, j: int)
    requires
        forall|k: int| 0 <= k < run.len() - 1 ==> table_step(#[trigger] run[k], run[k + 1]),
        0 <= i <= j < run.len(),
        run[i].wf(),
        run[i].spec_contains(id),
        run[i].spec_status_of(id) != GoalStatus::Unknown,
    ensures
        run[j].wf(),
        run[j].spec_contains(id),
        run[i].spec_status_of(id).rank() <= run[j].spec_status_of(id).rank(),
        run[j].spec_status_of(id) != GoalStatus::Unknown,
        run[i].spec_status_of(id).spec_is_terminal() ==> run[j].spec_status_of(id)
            == run[i].spec_status_of(id),
    decreases j - i,
{
    if i < j {
        lemma_step_tracks_goal(run[i], run[i + 1], id);
        if run[i + 1].spec_status_of(id) != run[i].spec_status_of(id) {
            crate::status::lemma_step_forward(
                run[i].spec_status_of(id),
                run[i + 1].spec_status_of(id),
            );
        }
        lemma_goal_status_monotone(run, id, i + 1, j);
    }
}

/// The roster entry one record publishes.
pub open spec fn spec_roster_entry<G, R>(rec: GoalRecord<G, R>) -> GoalStatusEntry {
    GoalStatusEntry {
        goal_info: GoalInfo { goal_id: rec.goal_id, stamp: rec.accepted_at },
        status: rec.status,
    }
}

proof fn lemma_projection_from<G, R>(
    t: &GoalTable<G, R>,
    list: Seq<GoalStatusEntry>,
    id: GoalId,
    k: int,
)
    requires
        t.wf(),
        list.len() == t.goals@.len(),
        forall|i: int|
            0 <= i < t.goals@.len() ==> #[trigger] list[i] == spec_roster_entry(t.goals@[i]),
        0 <= k <= list.len(),
        exists|i: int| k <= i < t.goals@.len() && t.goals@[i].goal_id == id,
        forall|j: int| 0 <= j < k ==> t.goals@[j].goal_id != id,
    ensures
        crate::action::spec_status_for_goal(list.skip(k), id) == Some(
            spec_roster_entry(t.goals@[t.spec_index_of(id)]),
        ),
    decreases list.len() - k,
{
    let i0 = choose|i: int| k <= i < t.goals@.len() && t.goals@[i].goal_id == id;
    lemma_index_unique(t, id, i0);
    let suf = list.skip(k);
    assert(suf[0] == list[k]);
    if t.goals@[k].goal_id == id {
        lemma_index_unique(t, id, k);
        assert(suf[0].goal_info.goal_id == id);
    } else {
        assert(suf[0].goal_info.goal_id != id);
        assert(suf.drop_first() =~= list.skip(k + 1));
        assert(k < i0);
        lemma_projection_from(t, list, id, k + 1);
    }
}

/// Law: the roster the server publishes shows every goal in the table, and
/// the client's per-goal projection of that roster finds exactly the goal's
/// current status and acceptance stamp.
pub proof fn lemma_roster_shows_goal<G, R>(t: &GoalTable<G, R>, list: Seq<GoalStatusEntry>, id: GoalId)
    requires
        t.wf(),
        t.spec_contains(id),
        list.len() == t.goals@.len(),
        forall|i: int|
            0 <= i < t.goals@.len() ==> #[trigger] list[i] == spec_roster_entry(t.goals@[i]),
    ensures
        crate::action::spec_status_for_goal(list, id) == Some(
            GoalStatusEntry {
                goal_info: GoalInfo {
                    goal_id: id,
                    stamp: t.goals@[t.spec_index_of(id)].accepted_at,
                },
                status: t.spec_status_of(id),
            },
        ),
{
    lemma_projection_from(t, list, id, 0);
    assert(list.skip(0) =~= list);
    let i0 = t.spec_index_of(id);
    assert(0 <= i0 < t.goals@.len() && t.goals@[i0].goal_id == id);
}

} // verus!
