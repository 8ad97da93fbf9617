//! The status a goal moves through on an action server, and the transitions
//! the protocol allows. Statuses only ever move forward, and the three
//! terminal statuses are absorbing: that is what makes the status topic's
//! view of one goal a monotone chain.

use vstd::prelude::*;

verus! {

/// Status of one goal, as carried in the status topic. A goal is `Unknown`
/// from receipt until the server accepts or rejects it.
#[derive(Clone, Copy, PartialEq, Eq, Structural, Debug, Hash)]
pub enum GoalStatus {
    Unknown,
    Accepted,
    Executing,
    Canceling,
    Succeeded,
    Canceled,
    Aborted,
}

impl GoalStatus {
    /// Position along a goal's life; transitions never move backward.
    pub open spec fn rank(self) -> int {
        match self {
            GoalStatus::Unknown => 0,
            GoalStatus::Accepted => 1,
            GoalStatus::Executing => 2,
            GoalStatus::Canceling => 3,
            GoalStatus::Succeeded => 4,
            GoalStatus::Canceled => 4,
            GoalStatus::Aborted => 4,
        }
    }

    pub open spec fn spec_is_terminal(self) -> bool {
        self == GoalStatus::Succeeded || self == GoalStatus::Canceled || self
            == GoalStatus::Aborted
    }

    /// Whether the goal has finished: succeeded, canceled or aborted.
    pub fn is_terminal(&self) -> (r: bool)
        ensures
            r == self.spec_is_terminal(),
    {
        match self {
            GoalStatus::Succeeded => true,
            GoalStatus::Canceled => true,
            GoalStatus::Aborted => true,
            _ => false,
        }
    }
}

/// The transitions the server can make on one goal: accept, start
/// executing, succeed, abort (from accepted or executing), move to
/// canceling on an accepted cancel request, and finish the cancel.
pub open spec fn status_step(from: GoalStatus, to: GoalStatus) -> bool {
    ||| (from == GoalStatus::Unknown && to == GoalStatus::Accepted)
    ||| (from == GoalStatus::Accepted && to == GoalStatus::Executing)
    ||| (from == GoalStatus::Accepted && to == GoalStatus::Aborted)
    ||| (from == GoalStatus::Accepted && to == GoalStatus::Canceling)
    ||| (from == GoalStatus::Executing && to == GoalStatus::Succeeded)
    ||| (from == GoalStatus::Executing && to == GoalStatus::Aborted)
    ||| (from == GoalStatus::Executing && to == GoalStatus::Canceling)
    ||| (from == GoalStatus::Canceling && to == GoalStatus::Canceled)
}

/// Every allowed transition strictly increases the rank, and nothing leaves
/// a terminal status.
pub proof fn lemma_step_forward(from: GoalStatus, to: GoalStatus)
    requires
        status_step(from, to),
    ensures
        from.rank() < to.rank(),
        !from.spec_is_terminal(),
{
}

/// A chain of statuses, as the status topic shows one goal over time:
/// adjacent entries are equal (republication) or one allowed transition
/// apart.
pub open spec fn status_chain(s: Seq<GoalStatus>) -> bool {
    forall|i: int| 0 < i < s.len() ==> (s[i - 1] == s[i] || status_step(s[i - 1], #[trigger] s[i]))
}

/// Law: along any chain of published statuses, the rank never decreases,
/// and once a goal shows a terminal status every later entry shows exactly
/// that status.
pub proof fn lemma_status_chain_monotone(s: Seq<GoalStatus>, i: int, j: int)
    requires
        status_chain(s),
        0 <= i <= j < s.len(),
    ensures
        s[i].rank() <= s[j].rank(),
        s[i].spec_is_terminal() ==> s[j] == s[i],
    decreases j - i,
{
    if i < j {
        if s[i] != s[i + 1] {
            lemma_step_forward(s[i], s[i + 1]);
        }
        lemma_status_chain_monotone(s, i + 1, j);
    }
}

} // verus!
