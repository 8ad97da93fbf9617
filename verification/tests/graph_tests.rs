use ros2_client::action::{
    drain_feedback_for, status_for_goal, FeedbackMessage, GoalInfo, GoalStatusArray,
    GoalStatusEntry,
};
use ros2_client::entities::{ContextRegistry, NodeEntitiesInfo};
use ros2_client::graph::{DdsDiscoveryEvent, GraphState};
use ros2_client::ids::{GoalId, Guid, Time};
use ros2_client::node::{
    event_completes_wait_for_reader, event_completes_wait_for_writer, reader_already_matched,
    writer_already_matched,
};
use ros2_client::status::GoalStatus;

fn g(n: u64) -> Guid {
    Guid { hi: n, lo: 0 }
}

#[test]
fn matched_between_matched_and_lost() {
    // the pair is recorded from the matched event until the writer is lost
    let mut state = GraphState::new();
    assert_eq!(state.get_publisher_count(g(1)), 0);
    state.apply_discovery_event(&DdsDiscoveryEvent::RemoteWriterMatched {
        local_reader: g(1),
        remote_writer: g(2),
    });
    assert_eq!(state.get_publisher_count(g(1)), 1);
    assert!(writer_already_matched(&state, g(1)));
    state.apply_discovery_event(&DdsDiscoveryEvent::WriterLost { writer: g(2) });
    assert_eq!(state.get_publisher_count(g(1)), 0);
    assert!(!writer_already_matched(&state, g(1)));
}

#[test]
fn matched_events_accumulate() {
    let mut state = GraphState::new();
    state.apply_discovery_event(&DdsDiscoveryEvent::RemoteWriterMatched {
        local_reader: g(1),
        remote_writer: g(2),
    });
    state.apply_discovery_event(&DdsDiscoveryEvent::RemoteWriterMatched {
        local_reader: g(1),
        remote_writer: g(3),
    });
    // recording the same match twice keeps one entry
    state.apply_discovery_event(&DdsDiscoveryEvent::RemoteWriterMatched {
        local_reader: g(1),
        remote_writer: g(3),
    });
    assert_eq!(state.get_publisher_count(g(1)), 2);
    state.apply_discovery_event(&DdsDiscoveryEvent::WriterLost { writer: g(2) });
    assert_eq!(state.get_publisher_count(g(1)), 1);
}

#[test]
fn reader_side_matches() {
    let mut state = GraphState::new();
    state.apply_discovery_event(&DdsDiscoveryEvent::RemoteReaderMatched {
        local_writer: g(5),
        remote_reader: g(6),
    });
    assert_eq!(state.get_subscription_count(g(5)), 1);
    assert!(reader_already_matched(&state, g(5)));
    // losing an unrelated reader changes nothing
    state.apply_discovery_event(&DdsDiscoveryEvent::ReaderLost { reader: g(9) });
    assert_eq!(state.get_subscription_count(g(5)), 1);
    state.apply_discovery_event(&DdsDiscoveryEvent::ReaderLost { reader: g(6) });
    assert_eq!(state.get_subscription_count(g(5)), 0);
}

#[test]
fn wait_predicates_match_the_right_event() {
    let matched = DdsDiscoveryEvent::RemoteWriterMatched { local_reader: g(1), remote_writer: g(2) };
    assert!(event_completes_wait_for_writer(&matched, g(1)));
    assert!(!event_completes_wait_for_writer(&matched, g(3)));
    assert!(!event_completes_wait_for_reader(&matched, g(1)));
    let matched_r = DdsDiscoveryEvent::RemoteReaderMatched { local_writer: g(4), remote_reader: g(5) };
    assert!(event_completes_wait_for_reader(&matched_r, g(4)));
    assert!(!event_completes_wait_for_writer(&matched_r, g(4)));
}

#[test]
fn external_nodes_replace_by_gid() {
    let mut state = GraphState::new();
    state.update_external_nodes(g(1), vec![NodeEntitiesInfo::new(b"/a".to_vec())]);
    state.update_external_nodes(g(2), vec![NodeEntitiesInfo::new(b"/b".to_vec())]);
    assert_eq!(state.external_nodes.len(), 2);
    state.update_external_nodes(g(1), vec![]);
    assert_eq!(state.external_nodes.len(), 2);
    let entry = state.external_nodes.iter().find(|e| e.0 == g(1)).unwrap();
    assert!(entry.1.is_empty());
}

#[test]
fn registry_update_and_remove() {
    let mut reg = ContextRegistry::new(g(100));
    let mut a = NodeEntitiesInfo::new(b"/talker".to_vec());
    a.add_writer(g(1));
    reg.update_node(a);
    let mut b = NodeEntitiesInfo::new(b"/listener".to_vec());
    b.add_reader(g(2));
    reg.update_node(b);
    assert_eq!(reg.participant_info().nodes.len(), 2);

    // updating the same node replaces its entry
    let mut a2 = NodeEntitiesInfo::new(b"/talker".to_vec());
    a2.add_writer(g(1));
    a2.add_writer(g(3));
    reg.update_node(a2);
    let info = reg.participant_info();
    assert_eq!(info.gid, g(100));
    assert_eq!(info.nodes.len(), 2);
    let talker = info.nodes.iter().find(|n| n.node_name == b"/talker".to_vec()).unwrap();
    assert_eq!(talker.writer_guids.len(), 2);
}

#[test]
fn dropped_node_absent_from_publication() {
    // a dropped node's refreshed graph publication shows it gone
    let mut reg = ContextRegistry::new(g(100));
    reg.update_node(NodeEntitiesInfo::new(b"/talker".to_vec()));
    reg.update_node(NodeEntitiesInfo::new(b"/listener".to_vec()));
    reg.remove_node(&b"/talker".to_vec());
    let info = reg.participant_info();
    assert_eq!(info.nodes.len(), 1);
    assert!(info.nodes.iter().all(|n| n.node_name != b"/talker".to_vec()));
}

#[test]
fn feedback_drained_by_goal_id() {
    let gi = |n: u64| GoalId { hi: 0, lo: n };
    let msgs = vec![
        FeedbackMessage { goal_id: gi(2), feedback: "other" },
        FeedbackMessage { goal_id: gi(1), feedback: "mine" },
    ];
    assert_eq!(drain_feedback_for(msgs, gi(1)), Some("mine"));
    let none: Vec<FeedbackMessage<&str>> = vec![FeedbackMessage { goal_id: gi(2), feedback: "x" }];
    assert_eq!(drain_feedback_for(none, gi(1)), None);
}

#[test]
fn status_projected_by_goal_id() {
    let gi = |n: u64| GoalId { hi: 0, lo: n };
    let entry = |n: u64, status: GoalStatus| GoalStatusEntry {
        goal_info: GoalInfo { goal_id: gi(n), stamp: Time::zero() },
        status,
    };
    let gsa = GoalStatusArray {
        status_list: vec![entry(1, GoalStatus::Accepted), entry(2, GoalStatus::Executing)],
    };
    let hit = status_for_goal(&gsa, gi(2)).unwrap();
    assert_eq!(hit.status, GoalStatus::Executing);
    assert!(status_for_goal(&gsa, gi(3)).is_none());
}
