use ros2_client::action::{ActionClientCore, CancelReturnCode, GoalInfo};
use ros2_client::errors::{GoalError, TransportError};
use ros2_client::goals::{CancelingGoalHandle, GoalTable};
use ros2_client::ids::{GoalId, Guid, RmwRequestId, Time};
use ros2_client::service::{ClientCore, RouteDecision};
use ros2_client::status::GoalStatus;

fn gid(n: u64) -> GoalId {
    GoalId { hi: 0, lo: n }
}

fn req(n: u64) -> RmwRequestId {
    RmwRequestId { writer_guid: Guid { hi: 5, lo: 5 }, seq: n }
}

fn t(sec: i32) -> Time {
    Time { sec, nanosec: 0 }
}

#[test]
fn goal_happy_path() {
    // receive, accept, execute, feedback, succeed, result
    let mut table: GoalTable<u32, i32> = GoalTable::new();
    let h = table.receive_new_goal(req(1), gid(1), 42).unwrap();
    let (accepted, resp) = table.accept_goal(h, t(10)).unwrap();
    assert!(resp.accepted);
    assert_eq!(resp.stamp, t(10));
    let executing = table.start_executing_goal(accepted).unwrap();
    let fb = table.feedback_message(&executing, 7u8).unwrap();
    assert_eq!(fb.goal_id, gid(1));
    assert_eq!(fb.feedback, 7u8);
    // the result request arrived while executing: answered on success
    let pending = table.receive_result_request(req(2), gid(1)).unwrap();
    assert!(pending.is_none());
    let answered = table.succeed_goal(executing, -3).unwrap().unwrap();
    assert_eq!(answered.0, req(2));
    assert_eq!(answered.1.status, GoalStatus::Succeeded);
    assert_eq!(answered.1.result, -3);
}

#[test]
fn result_kept_until_requested() {
    let mut table: GoalTable<u32, i32> = GoalTable::new();
    let h = table.receive_new_goal(req(1), gid(1), 1).unwrap();
    let (accepted, _) = table.accept_goal(h, t(1)).unwrap();
    let executing = table.start_executing_goal(accepted).unwrap();
    // no result request yet: the result is stored
    assert!(table.succeed_goal(executing, 99).unwrap().is_none());
    let (rid, resp) = table.receive_result_request(req(9), gid(1)).unwrap().unwrap();
    assert_eq!(rid, req(9));
    assert_eq!(resp.status, GoalStatus::Succeeded);
    assert_eq!(resp.result, 99);
}

#[test]
fn duplicate_goal_id_is_dropped() {
    let mut table: GoalTable<u32, i32> = GoalTable::new();
    let first = table.receive_new_goal(req(1), gid(1), 1);
    assert!(first.is_some());
    // the same goal id again: dropped, no handle, no response owed
    let second = table.receive_new_goal(req(2), gid(1), 2);
    assert!(second.is_none());
}

#[test]
fn rejected_goal_frees_its_id() {
    let mut table: GoalTable<u32, i32> = GoalTable::new();
    let h = table.receive_new_goal(req(1), gid(1), 1).unwrap();
    let resp = table.reject_goal(h, t(5)).unwrap();
    assert!(!resp.accepted);
    // the id can be received again after the rejection
    assert!(table.receive_new_goal(req(2), gid(1), 2).is_some());
}

#[test]
fn wrong_state_and_unknown_goal_errors() {
    let mut table: GoalTable<u32, i32> = GoalTable::new();
    let h = table.receive_new_goal(req(1), gid(1), 1).unwrap();
    let (accepted, _) = table.accept_goal(h, t(1)).unwrap();
    // accepting again: the goal is past Unknown
    let again = ros2_client::goals::NewGoalHandle { goal_id: gid(1), req_id: req(1) };
    assert_eq!(table.accept_goal(again, t(2)).unwrap_err(), GoalError::WrongGoalState);
    // an id never received
    let ghost_handle = ros2_client::goals::NewGoalHandle { goal_id: gid(9), req_id: req(9) };
    assert_eq!(table.accept_goal(ghost_handle, t(2)).unwrap_err(), GoalError::NoSuchGoal);
    // executing twice
    let executing = table.start_executing_goal(accepted).unwrap();
    let accepted_again = ros2_client::goals::AcceptedGoalHandle { goal_id: gid(1) };
    assert_eq!(
        table.start_executing_goal(accepted_again).unwrap_err(),
        GoalError::WrongGoalState
    );
    // feedback after the goal ended
    assert!(table.abort_executing_goal(executing, 0).is_ok());
    let exec_handle = ros2_client::goals::ExecutingGoalHandle { goal_id: gid(1) };
    assert_eq!(
        table.feedback_message(&exec_handle, 1u8).unwrap_err(),
        GoalError::WrongGoalState
    );
}

#[test]
fn abort_accepted_goal_stores_result() {
    let mut table: GoalTable<u32, i32> = GoalTable::new();
    let h = table.receive_new_goal(req(1), gid(1), 1).unwrap();
    let (accepted, _) = table.accept_goal(h, t(1)).unwrap();
    assert!(table.abort_accepted_goal(accepted, 5).unwrap().is_none());
    let (_, resp) = table.receive_result_request(req(2), gid(1)).unwrap().unwrap();
    assert_eq!(resp.status, GoalStatus::Aborted);
    assert_eq!(resp.result, 5);
}

#[test]
fn cancel_all_before_timestamp() {
    // three goals accepted at t1 < t2 < t3; cancel-all-before t2 names the
    // first two; accepting the cancel for the first alone moves only it
    let mut table: GoalTable<u32, i32> = GoalTable::new();
    for (i, at) in [(1u64, 1i32), (2, 2), (3, 3)] {
        let h = table.receive_new_goal(req(i), gid(i), i as u32).unwrap();
        table.accept_goal(h, t(at)).unwrap();
    }
    let info = GoalInfo { goal_id: GoalId::zero(), stamp: t(2) };
    let candidates = table.cancel_candidates(&info);
    assert_eq!(candidates, vec![gid(1), gid(2)]);

    let accepted_cancels = vec![gid(1)];
    let resp = table.respond_to_cancel_requests(&accepted_cancels);
    assert_eq!(resp.return_code, CancelReturnCode::Accepted);
    assert_eq!(resp.goals_canceling.len(), 1);
    assert_eq!(resp.goals_canceling[0].goal_id, gid(1));
    assert_eq!(resp.goals_canceling[0].stamp, t(1));

    let roster = table.status_array();
    assert_eq!(roster.status_list[0].status, GoalStatus::Canceling);
    assert_eq!(roster.status_list[1].status, GoalStatus::Accepted);
    assert_eq!(roster.status_list[2].status, GoalStatus::Accepted);

    // and the cancel completes
    let canceling = CancelingGoalHandle { goal_id: gid(1) };
    assert!(table.finish_canceling_goal(canceling, 0).unwrap().is_none());
    let roster2 = table.status_array();
    assert_eq!(roster2.status_list[0].status, GoalStatus::Canceled);
}

#[test]
fn cancel_policy_cases() {
    let mut table: GoalTable<u32, i32> = GoalTable::new();
    for (i, at) in [(1u64, 1i32), (2, 2)] {
        let h = table.receive_new_goal(req(i), gid(i), 0).unwrap();
        table.accept_goal(h, t(at)).unwrap();
    }
    // zero id, zero stamp: everything
    let all = table.cancel_candidates(&GoalInfo { goal_id: GoalId::zero(), stamp: Time::zero() });
    assert_eq!(all, vec![gid(1), gid(2)]);
    // id alone: that goal regardless of time
    let one = table.cancel_candidates(&GoalInfo { goal_id: gid(2), stamp: Time::zero() });
    assert_eq!(one, vec![gid(2)]);
    // id plus stamp: that goal and everything accepted at or before
    let both = table.cancel_candidates(&GoalInfo { goal_id: gid(2), stamp: t(1) });
    assert_eq!(both, vec![gid(1), gid(2)]);
}

#[test]
fn rejected_cancel_request() {
    let mut table: GoalTable<u32, i32> = GoalTable::new();
    let h = table.receive_new_goal(req(1), gid(1), 0).unwrap();
    table.accept_goal(h, t(1)).unwrap();
    // the server accepts none of the requested cancels
    let resp = table.respond_to_cancel_requests(&vec![]);
    assert_eq!(resp.return_code, CancelReturnCode::Rejected);
    assert!(resp.goals_canceling.is_empty());
}

#[test]
fn result_request_for_unknown_goal() {
    let mut table: GoalTable<u32, i32> = GoalTable::new();
    assert_eq!(
        table.receive_result_request(req(1), gid(8)).unwrap_err(),
        GoalError::NoSuchGoal
    );
}

#[test]
fn action_client_requests() {
    let mk = |n: u64| ClientCore::new(Guid { hi: n, lo: n });
    let mut client = ActionClientCore::new(mk(1), mk(2), mk(3));
    let (rid, request) = client.send_goal(42u32, gid(7));
    assert_eq!(rid.seq, 1);
    assert_eq!(request.goal_id, gid(7));
    assert_eq!(request.goal, 42);
    let (_, cancel_one) = client.cancel_goal(gid(7));
    assert_eq!(cancel_one.goal_info, GoalInfo { goal_id: gid(7), stamp: Time::zero() });
    let (_, cancel_before) = client.cancel_all_goals_before(t(9));
    assert_eq!(cancel_before.goal_info, GoalInfo { goal_id: GoalId::zero(), stamp: t(9) });
    let (_, cancel_all) = client.cancel_all_goals();
    assert_eq!(cancel_all.goal_info, GoalInfo { goal_id: GoalId::zero(), stamp: Time::zero() });
    let (_, result_req) = client.request_result(gid(7));
    assert_eq!(result_req.goal_id, gid(7));
}

#[test]
fn goal_error_wraps_transport() {
    let e = GoalError::from_transport(TransportError::OutOfResources);
    assert_eq!(e, GoalError::Transport(TransportError::OutOfResources));
}

#[test]
fn async_calls_register_their_ids() {
    let mk = |n: u64| ClientCore::new(Guid { hi: n, lo: n });
    let mut client = ActionClientCore::new(mk(1), mk(2), mk(3));
    let (goal_rid, _) = client.async_send_goal(1u32, gid(1));
    let (cancel_rid, cancel_req) = client.async_cancel_goal(gid(1), t(4));
    let (result_rid, result_req) = client.async_request_result(gid(1));
    assert_eq!(cancel_req.goal_info, GoalInfo { goal_id: gid(1), stamp: t(4) });
    assert_eq!(result_req.goal_id, gid(1));
    // each reply completes exactly its own suspended call, once
    assert_eq!(client.goal_client.route_response(goal_rid), RouteDecision::Deliver);
    assert_eq!(client.goal_client.route_response(goal_rid), RouteDecision::Discard);
    assert_eq!(client.cancel_client.route_response(cancel_rid), RouteDecision::Deliver);
    assert_eq!(client.result_client.route_response(result_rid), RouteDecision::Deliver);
}

#[test]
fn action_type_support_names() {
    let a = ros2_client::action::ActionTypeSupport::new(
        b"Fibonacci_Goal".to_vec(),
        b"Fibonacci_Result".to_vec(),
        b"Fibonacci_Feedback".to_vec(),
    );
    assert_eq!(a.goal_type_name(), &b"Fibonacci_Goal".to_vec());
    assert_eq!(a.result_type_name(), &b"Fibonacci_Result".to_vec());
    assert_eq!(a.feedback_type_name(), &b"Fibonacci_Feedback".to_vec());
}

#[test]
fn goal_round_trip_across_client_and_server() {
    // client sends a freshly-named goal; the server takes it through
    // accept and success; the published roster shows the goal's states
    let mk = |n: u64| ClientCore::new(Guid { hi: n, lo: n });
    let mut client = ActionClientCore::new(mk(1), mk(2), mk(3));
    let (send_rid, request) = client.send_goal_fresh(41u32);
    let goal_id = request.goal_id;

    let mut table: GoalTable<u32, i32> = GoalTable::new();
    let h = table.receive_new_goal(send_rid, goal_id, request.goal).unwrap();
    let (accepted, resp) = table.accept_goal(h, t(3)).unwrap();
    assert!(resp.accepted);
    let roster = table.status_array();
    let entry = ros2_client::action::status_for_goal(&roster, goal_id).unwrap();
    assert_eq!(entry.status, GoalStatus::Accepted);
    assert_eq!(entry.goal_info.stamp, t(3));

    let executing = table.start_executing_goal(accepted).unwrap();
    let (result_rid, result_request) = client.async_request_result(goal_id);
    assert!(table
        .receive_result_request(result_rid, result_request.goal_id)
        .unwrap()
        .is_none());
    let (answer_rid, answer) = table.succeed_goal(executing, 7).unwrap().unwrap();
    assert_eq!(answer_rid, result_rid);
    assert_eq!(answer.status, GoalStatus::Succeeded);
    assert_eq!(answer.result, 7);
    // the reply completes the one suspended result call
    assert_eq!(client.result_client.route_response(answer_rid), RouteDecision::Deliver);
    let final_roster = table.status_array();
    let final_entry = ros2_client::action::status_for_goal(&final_roster, goal_id).unwrap();
    assert_eq!(final_entry.status, GoalStatus::Succeeded);
}
