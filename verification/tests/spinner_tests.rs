use ros2_client::channels::TrySendOutcome;
use ros2_client::entities::NodeEntitiesInfo;
use ros2_client::graph::{DdsDiscoveryEvent, GraphState};
use ros2_client::ids::Guid;
use ros2_client::spinner::{
    add_status_listener, handle_discovery_event, handle_graph_sample, make_stop_channel,
    send_status_event, signal_stop, NodeEvent, STATUS_CHANNEL_CAPACITY,
};

fn g(n: u64) -> Guid {
    Guid { hi: n, lo: n }
}

fn dds_event(n: u64) -> NodeEvent {
    NodeEvent::Dds(DdsDiscoveryEvent::RemoteWriterMatched {
        local_reader: g(n),
        remote_writer: g(n + 1),
    })
}

#[test]
fn broadcast_reaches_every_listener() {
    let mut senders = Vec::new();
    let r1 = add_status_listener(&mut senders);
    let r2 = add_status_listener(&mut senders);
    let outcomes = send_status_event(&mut senders, &dds_event(1));
    assert_eq!(outcomes, vec![TrySendOutcome::Sent, TrySendOutcome::Sent]);
    for r in [&r1, &r2] {
        match r.try_recv().unwrap() {
            NodeEvent::Dds(DdsDiscoveryEvent::RemoteWriterMatched { local_reader, remote_writer }) => {
                assert_eq!(local_reader, g(1));
                assert_eq!(remote_writer, g(2));
            }
            _ => panic!("wrong event"),
        }
    }
}

#[test]
fn closed_listener_is_removed() {
    // one listener goes away: the next broadcast sees the closed channel and
    // drops it; the live listener keeps receiving
    let mut senders = Vec::new();
    let r1 = add_status_listener(&mut senders);
    let r2 = add_status_listener(&mut senders);
    drop(r1);
    let outcomes = send_status_event(&mut senders, &dds_event(1));
    assert_eq!(outcomes, vec![TrySendOutcome::Closed, TrySendOutcome::Sent]);
    assert_eq!(senders.len(), 1);
    assert!(r2.try_recv().is_ok());
    let outcomes2 = send_status_event(&mut senders, &dds_event(3));
    assert_eq!(outcomes2, vec![TrySendOutcome::Sent]);
}

#[test]
fn stalled_listener_loses_events_silently() {
    // a listener that never drains fills its buffer; further events
    // are dropped for it while a draining listener sees them all
    let mut senders = Vec::new();
    let stalled = add_status_listener(&mut senders);
    let draining = add_status_listener(&mut senders);
    let mut drained = 0;
    for i in 0..(STATUS_CHANNEL_CAPACITY + 3) {
        let outcomes = send_status_event(&mut senders, &dds_event(10 + i as u64));
        if i < STATUS_CHANNEL_CAPACITY {
            assert_eq!(outcomes[0], TrySendOutcome::Sent);
        } else {
            assert_eq!(outcomes[0], TrySendOutcome::Full);
        }
        assert_eq!(outcomes[1], TrySendOutcome::Sent);
        while draining.try_recv().is_ok() {
            drained += 1;
        }
    }
    assert_eq!(drained, STATUS_CHANNEL_CAPACITY + 3);
    assert_eq!(senders.len(), 2);
    let mut stalled_got = 0;
    while stalled.try_recv().is_ok() {
        stalled_got += 1;
    }
    assert_eq!(stalled_got, STATUS_CHANNEL_CAPACITY);
}

#[test]
fn stop_channel_signals_once() {
    let (tx, rx) = make_stop_channel();
    assert_eq!(signal_stop(&tx), TrySendOutcome::Sent);
    // the slot is taken: a second signal is dropped, which the node ignores
    assert_eq!(signal_stop(&tx), TrySendOutcome::Full);
    assert!(rx.try_recv().is_ok());
    drop(rx);
    assert_eq!(signal_stop(&tx), TrySendOutcome::Closed);
}

#[test]
fn discovery_event_updates_graph_and_listeners() {
    let mut graph = GraphState::new();
    let mut senders = Vec::new();
    let listener = add_status_listener(&mut senders);
    let ev = DdsDiscoveryEvent::RemoteWriterMatched { local_reader: g(1), remote_writer: g(2) };
    let outcomes = handle_discovery_event(&mut graph, &mut senders, ev);
    assert_eq!(outcomes, vec![TrySendOutcome::Sent]);
    assert_eq!(graph.get_publisher_count(g(1)), 1);
    assert!(matches!(listener.try_recv().unwrap(), NodeEvent::Dds(_)));
}

#[test]
fn graph_sample_updates_external_nodes_and_listeners() {
    let mut graph = GraphState::new();
    let mut senders = Vec::new();
    let listener = add_status_listener(&mut senders);
    let info = ros2_client::entities::ParticipantEntitiesInfo {
        gid: g(50),
        nodes: vec![NodeEntitiesInfo::new(b"/remote_node".to_vec())],
    };
    handle_graph_sample(&mut graph, &mut senders, info);
    assert_eq!(graph.external_nodes.len(), 1);
    assert_eq!(graph.external_nodes[0].0, g(50));
    // the sample's node list itself is stored, not just the key
    assert_eq!(graph.external_nodes[0].1.len(), 1);
    assert_eq!(graph.external_nodes[0].1[0].node_name, b"/remote_node".to_vec());
    match listener.try_recv().unwrap() {
        NodeEvent::Ros(p) => {
            assert_eq!(p.gid, g(50));
            assert_eq!(p.nodes.len(), 1);
            assert_eq!(p.nodes[0].node_name, b"/remote_node".to_vec());
        }
        _ => panic!("wrong event"),
    }
}
