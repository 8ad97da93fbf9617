use ros2_client::ids::{GoalId, Guid, Time};
use ros2_client::names::{Name, NodeName};
use ros2_client::node::{build_log_record, LogLevel, NodeCore, NodeOptions};
use ros2_client::random::fresh_goal_id;
use ros2_client::type_names::ActionTypeName;

fn nb(s: &str) -> Vec<u8> {
    s.as_bytes().to_vec()
}

fn g(n: u64) -> Guid {
    Guid { hi: n, lo: n }
}

fn node() -> NodeCore {
    let name = NodeName::new(nb(""), nb("testnode")).unwrap();
    NodeCore::new(name, NodeOptions::new(), 0, g(100), Some(g(101)))
}

#[test]
fn options_builder() {
    let o = NodeOptions::new();
    assert!(o.enable_rosout);
    assert!(!o.enable_rosout_reading);
    let o2 = o.enable_rosout(false).read_rosout(true);
    assert!(!o2.enable_rosout);
    assert!(o2.enable_rosout_reading);
    assert_eq!(NodeOptions::default(), NodeOptions::new());
}

#[test]
fn node_tracks_its_entities() {
    let mut n = node();
    assert_eq!(n.fully_qualified_name(), nb("/testnode"));
    assert_eq!(n.base_name(), &nb("testnode"));
    assert_eq!(n.namespace(), &nb(""));
    assert_eq!(n.domain_id(), 0);
    n.add_reader(g(1));
    n.add_writer(g(2));
    let info = n.generate_node_info();
    assert_eq!(info.node_name, nb("/testnode"));
    assert_eq!(info.reader_guids, vec![g(1)]);
    // built-in writers first: parameter events, then rosout, then created
    assert_eq!(info.writer_guids, vec![g(100), g(101), g(2)]);
}

#[test]
fn node_without_rosout_writer() {
    let name = NodeName::new(nb("apps"), nb("quiet")).unwrap();
    let n = NodeCore::new(name, NodeOptions::new().enable_rosout(false), 7, g(100), None);
    let info = n.generate_node_info();
    assert_eq!(info.node_name, nb("/apps/quiet"));
    assert_eq!(info.writer_guids, vec![g(100)]);
    assert_eq!(n.domain_id(), 7);
}

#[test]
fn spinner_taken_once() {
    let mut n = node();
    assert!(!n.has_spinner);
    n.take_spinner();
    assert!(n.has_spinner);
}

#[test]
fn log_record_levels() {
    let r = build_log_record(
        Time { sec: 3, nanosec: 4 },
        LogLevel::Warn,
        nb("testnode"),
        nb("something happened"),
        nb("main.rs"),
        nb("main"),
        17,
    );
    assert_eq!(r.timestamp, Time { sec: 3, nanosec: 4 });
    assert_eq!(r.level, 30);
    assert_eq!(r.msg, nb("something happened"));
    assert_eq!(r.line, 17);
    assert_eq!(LogLevel::Debug.value(), 10);
    assert_eq!(LogLevel::Info.value(), 20);
    assert_eq!(LogLevel::Error.value(), 40);
    assert_eq!(LogLevel::Fatal.value(), 50);
}

#[test]
fn action_endpoint_names() {
    // the full endpoint set of one action, exactly as on the wire
    let n = node();
    let action_name = Name::parse(&nb("turtle1/rotate_absolute")).unwrap();
    let ty = ActionTypeName::new(nb("turtlesim"), nb("RotateAbsolute"));
    let e = n.action_dds_names(&action_name, &ty);

    assert_eq!(
        e.goal.request.topic_name,
        nb("rq/turtle1/rotate_absolute/_action/send_goalRequest")
    );
    assert_eq!(
        e.goal.reply.topic_name,
        nb("rr/turtle1/rotate_absolute/_action/send_goalReply")
    );
    assert_eq!(
        e.goal.request.type_string,
        nb("turtlesim::action::dds_::RotateAbsolute_SendGoal_Request_")
    );
    assert_eq!(
        e.goal.reply.type_string,
        nb("turtlesim::action::dds_::RotateAbsolute_SendGoal_Response_")
    );

    assert_eq!(
        e.cancel.request.topic_name,
        nb("rq/turtle1/rotate_absolute/_action/cancel_goalRequest")
    );
    assert_eq!(
        e.cancel.request.type_string,
        nb("action_msgs::srv::dds_::CancelGoal_Request_")
    );
    assert_eq!(
        e.cancel.reply.type_string,
        nb("action_msgs::srv::dds_::CancelGoal_Response_")
    );

    assert_eq!(
        e.result.request.topic_name,
        nb("rq/turtle1/rotate_absolute/_action/get_resultRequest")
    );
    assert_eq!(
        e.result.request.type_string,
        nb("turtlesim::action::dds_::RotateAbsolute_GetResult_Request_")
    );
    assert_eq!(
        e.result.reply.type_string,
        nb("turtlesim::action::dds_::RotateAbsolute_GetResult_Response_")
    );

    assert_eq!(e.feedback.topic_name, nb("rt/turtle1/rotate_absolute/_action/feedback"));
    assert_eq!(
        e.feedback.type_string,
        nb("turtlesim::action::dds_::RotateAbsolute_FeedbackMessage_")
    );
    assert_eq!(e.status.topic_name, nb("rt/turtle1/rotate_absolute/_action/status"));
    assert_eq!(e.status.type_string, nb("action_msgs::msg::dds_::GoalStatusArray_"));
}

#[test]
fn plain_topic_endpoint() {
    let n = node();
    let name = Name::parse(&nb("/chatter")).unwrap();
    let ty = ros2_client::type_names::MessageTypeName::new(nb("std_msgs"), nb("String"));
    let ep = n.topic_dds_names(&name, &ty);
    assert_eq!(ep.topic_name, nb("rt//chatter"));
    assert_eq!(ep.type_string, nb("std_msgs::msg::dds_::String_"));
}

#[test]
fn service_endpoint_names() {
    let n = node();
    let name = Name::parse(&nb("/echo")).unwrap();
    let ty = ros2_client::type_names::ServiceTypeName::new(nb("example_interfaces"), nb("Echo"));
    let e = n.service_dds_names(&name, &ty);
    assert_eq!(e.request.topic_name, nb("rq//echoRequest"));
    assert_eq!(e.reply.topic_name, nb("rr//echoReply"));
    assert_eq!(e.request.type_string, nb("example_interfaces::srv::dds_::Echo_Request_"));
    assert_eq!(e.reply.type_string, nb("example_interfaces::srv::dds_::Echo_Response_"));
}

#[test]
fn fresh_goal_ids_differ() {
    // two 128-bit random draws collide only with negligible probability
    let a = fresh_goal_id();
    let b = fresh_goal_id();
    assert_ne!(a, b);
    assert_ne!(a, GoalId::zero());
}

#[test]
fn goal_id_from_halves() {
    let x: u128 = (7u128 << 64) | 9u128;
    let id = GoalId::from_u128(x);
    assert_eq!(id.hi, 7);
    assert_eq!(id.lo, 9);
    assert!(GoalId::zero().is_zero());
    assert!(!id.is_zero());
}
