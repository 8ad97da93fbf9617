use ros2_client::names::{Name, NodeName, TopicPrefix};
use ros2_client::type_names::{ActionTypeName, MessageTypeName, ServiceTypeName};

fn nb(s: &str) -> Vec<u8> {
    s.as_bytes().to_vec()
}

#[test]
fn parse_absolute_name() {
    let n = Name::parse(&nb("/chatter")).unwrap();
    assert_eq!(n.namespace, nb(""));
    assert_eq!(n.base, nb("chatter"));
}

#[test]
fn parse_nested_name() {
    let n = Name::parse(&nb("turtle1/rotate_absolute")).unwrap();
    assert_eq!(n.namespace, nb("turtle1"));
    assert_eq!(n.base, nb("rotate_absolute"));
}

#[test]
fn parse_strips_one_leading_slash() {
    let n = Name::parse(&nb("/a/b/c")).unwrap();
    assert_eq!(n.namespace, nb("a/b"));
    assert_eq!(n.base, nb("c"));
}

#[test]
fn parse_tilde_names() {
    let n = Name::parse(&nb("~/foo")).unwrap();
    assert_eq!(n.namespace, nb("~"));
    assert_eq!(n.base, nb("foo"));
    let bare = Name::parse(&nb("~")).unwrap();
    assert_eq!(bare.namespace, nb(""));
    assert_eq!(bare.base, nb("~"));
}

#[test]
fn parse_substitution_braces() {
    let n = Name::parse(&nb("{sub}/foo")).unwrap();
    assert_eq!(n.namespace, nb("{sub}"));
    assert_eq!(n.base, nb("foo"));
}

#[test]
fn parse_rejects_rule_violations() {
    // each naming rule violated once
    assert!(Name::parse(&nb("")).is_err());
    assert!(Name::parse(&nb("9abc")).is_err());
    assert!(Name::parse(&nb("abc/")).is_err());
    assert!(Name::parse(&nb("a//b")).is_err());
    assert!(Name::parse(&nb("a__b")).is_err());
    assert!(Name::parse(&nb("~x")).is_err());
    assert!(Name::parse(&nb("{a")).is_err());
    assert!(Name::parse(&nb("a}b")).is_err());
    assert!(Name::parse(&nb("{a/b}")).is_err());
    assert!(Name::parse(&nb("a b")).is_err());
    assert!(Name::parse(&nb("a-b")).is_err());
}

#[test]
fn render_parse_round_trip() {
    for s in ["/chatter", "/a/b/c", "turtle1/pose", "~/private", "{sub}/foo"] {
        let n = Name::parse(&nb(s)).unwrap();
        let rendered = n.render();
        let again = Name::parse(&rendered).unwrap();
        assert_eq!(again.namespace, n.namespace);
        assert_eq!(again.base, n.base);
    }
}

#[test]
fn render_forms() {
    let root = Name::parse(&nb("/chatter")).unwrap();
    assert_eq!(root.render(), nb("/chatter"));
    let nested = Name::parse(&nb("a/b")).unwrap();
    assert_eq!(nested.render(), nb("/a/b"));
}

#[test]
fn push_descends() {
    let n = Name::parse(&nb("turtle1/rotate_absolute")).unwrap();
    let child = n.push(nb("_action")).unwrap();
    assert_eq!(child.namespace, nb("turtle1/rotate_absolute"));
    assert_eq!(child.base, nb("_action"));
    assert!(n.push(nb("bad/segment")).is_err());
}

#[test]
fn dds_topic_name_root_namespace() {
    // a topic in the root namespace keeps the empty namespace slot
    let node = NodeName::new(nb(""), nb("talker")).unwrap();
    let name = Name::parse(&nb("/chatter")).unwrap();
    let dds = name.to_dds_name(TopicPrefix::Topic, &node, &nb(""));
    assert_eq!(dds, nb("rt//chatter"));
}

#[test]
fn dds_topic_name_nested_namespace() {
    let node = NodeName::new(nb(""), nb("turtle_driver")).unwrap();
    let name = Name::parse(&nb("turtle1/pose")).unwrap();
    let dds = name.to_dds_name(TopicPrefix::Topic, &node, &nb(""));
    assert_eq!(dds, nb("rt/turtle1/pose"));
}

#[test]
fn dds_service_names() {
    let node = NodeName::new(nb(""), nb("client")).unwrap();
    let name = Name::parse(&nb("turtle1/rotate_absolute/_action/send_goal")).unwrap();
    let rq = name.to_dds_name(TopicPrefix::ServiceRequest, &node, &nb("Request"));
    let rr = name.to_dds_name(TopicPrefix::ServiceReply, &node, &nb("Reply"));
    assert_eq!(rq, nb("rq/turtle1/rotate_absolute/_action/send_goalRequest"));
    assert_eq!(rr, nb("rr/turtle1/rotate_absolute/_action/send_goalReply"));
}

#[test]
fn dds_name_resolves_tilde() {
    let node = NodeName::new(nb("apps"), nb("mynode")).unwrap();
    let name = Name::parse(&nb("~/status")).unwrap();
    let dds = name.to_dds_name(TopicPrefix::Topic, &node, &nb(""));
    assert_eq!(dds, nb("rt/apps/mynode/status"));
    let bare = Name::parse(&nb("~")).unwrap();
    let dds2 = bare.to_dds_name(TopicPrefix::Topic, &node, &nb(""));
    assert_eq!(dds2, nb("rt/apps/mynode"));
}

#[test]
fn node_name_rules() {
    assert!(NodeName::new(nb(""), nb("talker")).is_ok());
    assert!(NodeName::new(nb("a/b"), nb("talker")).is_ok());
    assert!(NodeName::new(nb(""), nb("")).is_err());
    assert!(NodeName::new(nb(""), nb("1talker")).is_err());
    assert!(NodeName::new(nb(""), nb("bad name")).is_err());
    assert!(NodeName::new(nb(""), nb("bad/name")).is_err());
    assert!(NodeName::new(nb("~"), nb("talker")).is_err());
    assert!(NodeName::new(nb("{a}"), nb("talker")).is_err());
}

#[test]
fn node_fully_qualified_name() {
    let root = NodeName::new(nb(""), nb("talker")).unwrap();
    assert_eq!(root.fully_qualified_name(), nb("/talker"));
    let nested = NodeName::new(nb("apps/demo"), nb("talker")).unwrap();
    assert_eq!(nested.fully_qualified_name(), nb("/apps/demo/talker"));
}

#[test]
fn dds_message_type_string() {
    let ty = MessageTypeName::new(nb("std_msgs"), nb("String"));
    assert_eq!(ty.dds_msg_type(), nb("std_msgs::msg::dds_::String_"));
}

#[test]
fn dds_service_type_strings() {
    let ty = ServiceTypeName::new(nb("example_interfaces"), nb("AddTwoInts"));
    assert_eq!(
        ty.dds_request_type(),
        nb("example_interfaces::srv::dds_::AddTwoInts_Request_")
    );
    assert_eq!(
        ty.dds_response_type(),
        nb("example_interfaces::srv::dds_::AddTwoInts_Response_")
    );
}

#[test]
fn dds_action_type_strings() {
    let ty = ActionTypeName::new(nb("turtlesim"), nb("RotateAbsolute"));
    let goal = ty.dds_action_service(&nb("_SendGoal"));
    assert_eq!(
        goal.dds_request_type(),
        nb("turtlesim::action::dds_::RotateAbsolute_SendGoal_Request_")
    );
    assert_eq!(
        goal.dds_response_type(),
        nb("turtlesim::action::dds_::RotateAbsolute_SendGoal_Response_")
    );
    let fb = ty.dds_action_topic(&nb("_FeedbackMessage"));
    assert_eq!(
        fb.dds_msg_type(),
        nb("turtlesim::action::dds_::RotateAbsolute_FeedbackMessage_")
    );
}
