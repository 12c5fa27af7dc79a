use broadcast_node::models::ProtocolError;
use broadcast_node::models::Request;
use broadcast_node::models::RequestMessageBody;
use broadcast_node::node::Node;

fn request(msg_type: &str) -> Request {
    Request {
        id: None,
        src: "c1".to_owned(),
        dest: "n1".to_owned(),
        body: RequestMessageBody {
            node_id: None,
            msg_type: msg_type.to_owned(),
            node_ids: None,
            msg_id: None,
            echo: None,
            topology: None,
            message: None,
        },
    }
}

fn broadcast(value: i32, msg_id: Option<usize>) -> Request {
    let mut req = request("broadcast");
    req.body.message = Some(value);
    req.body.msg_id = msg_id;
    req
}

fn topology(entries: Vec<(&str, Vec<&str>)>, msg_id: Option<usize>) -> Request {
    let mut req = request("topology");
    req.body.topology = Some(
        entries
            .into_iter()
            .map(|(k, vs)| (k.to_owned(), vs.into_iter().map(|v| v.to_owned()).collect()))
            .collect(),
    );
    req.body.msg_id = msg_id;
    req
}

#[test]
fn init_sets_identity_and_acknowledges() {
    let mut node = Node::new("n1".to_owned());
    let mut req = request("init");
    req.src = "c0".to_owned();
    req.dest = "n0".to_owned();
    req.body.node_id = Some("n7".to_owned());
    req.body.msg_id = Some(1);
    let out = node.handle_request(req).unwrap();
    assert_eq!(node.id, "n7");
    assert!(out.floods.is_empty());
    let resp = out.reply.unwrap();
    assert_eq!(resp.src, "n0");
    assert_eq!(resp.dest, "c0");
    assert_eq!(resp.body.msg_type, "init_ok");
    assert_eq!(resp.body.in_reply_to, Some(1));
    assert_eq!(resp.body.msg_id, Some(1));
    assert_eq!(resp.body.node_id.as_deref(), Some("n0"));
    assert!(resp.body.echo.is_none());
    assert!(resp.body.messages.is_none());
}

#[test]
fn init_without_node_id_is_an_error() {
    let mut node = Node::new("n1".to_owned());
    let mut req = request("init");
    req.body.msg_id = Some(1);
    let err = node.handle_request(req).unwrap_err();
    assert_eq!(err, ProtocolError::MissingNodeId);
    assert_eq!(node.id, "n1");
}

#[test]
fn echo_returns_payload() {
    let mut node = Node::new("n1".to_owned());
    let mut req = request("echo");
    req.body.echo = Some("hi".to_owned());
    req.body.msg_id = Some(5);
    let out = node.handle_request(req).unwrap();
    assert!(out.floods.is_empty());
    let resp = out.reply.unwrap();
    assert_eq!(resp.src, "n1");
    assert_eq!(resp.dest, "c1");
    assert_eq!(resp.body.msg_type, "echo_ok");
    assert_eq!(resp.body.echo.as_deref(), Some("hi"));
    assert_eq!(resp.body.in_reply_to, Some(5));
    assert_eq!(resp.body.msg_id, Some(5));
}

#[test]
fn topology_sets_neighbour_set() {
    let mut node = Node::new("n1".to_owned());
    let req = topology(vec![("n1", vec!["n2", "n3"]), ("n2", vec!["n1"])], Some(2));
    let out = node.handle_request(req).unwrap();
    assert_eq!(node.neighbours, vec!["n2".to_owned(), "n3".to_owned()]);
    assert!(out.floods.is_empty());
    let resp = out.reply.unwrap();
    assert_eq!(resp.body.msg_type, "topology_ok");
    assert_eq!(resp.body.in_reply_to, Some(2));
}

#[test]
fn topology_then_flood_reaches_exactly_those_neighbours() {
    let mut node = Node::new("n1".to_owned());
    node.handle_request(topology(vec![("n1", vec!["n2", "n3"])], Some(2))).unwrap();
    let out = node.handle_request(broadcast(9, Some(3))).unwrap();
    assert_eq!(out.floods.len(), 2);
    let dests: Vec<&str> = out.floods.iter().map(|f| f.dest.as_str()).collect();
    assert_eq!(dests, vec!["n2", "n3"]);
    for flood in &out.floods {
        assert_eq!(flood.src, "n1");
        assert_eq!(flood.body.msg_type, "broadcast");
        assert_eq!(flood.body.message, Some(9));
        assert!(flood.body.msg_id.is_none());
        assert!(flood.id.is_none());
    }
}

#[test]
fn topology_without_mapping_is_an_error() {
    let mut node = Node::new("n1".to_owned());
    let mut req = request("topology");
    req.body.msg_id = Some(2);
    let err = node.handle_request(req).unwrap_err();
    assert_eq!(err, ProtocolError::MissingTopology);
}

#[test]
fn topology_without_own_entry_is_an_error() {
    let mut node = Node::new("n1".to_owned());
    let req = topology(vec![("n2", vec!["n1"])], Some(2));
    let err = node.handle_request(req).unwrap_err();
    assert_eq!(err, ProtocolError::TopologyWithoutSelf);
    assert!(node.neighbours.is_empty());
}

#[test]
fn broadcast_store_holds_distinct_values() {
    let mut node = Node::new("n1".to_owned());
    for value in [1, 1, 2, 1, 3, 2] {
        node.handle_request(broadcast(value, None)).unwrap();
    }
    assert_eq!(node.messages, vec![1, 2, 3]);
}

#[test]
fn duplicate_broadcast_produces_no_flood() {
    let mut node = Node::new("n1".to_owned());
    node.handle_request(topology(vec![("n1", vec!["n2"])], Some(1))).unwrap();
    let first = node.handle_request(broadcast(5, Some(2))).unwrap();
    assert_eq!(first.floods.len(), 1);
    let second = node.handle_request(broadcast(5, Some(3))).unwrap();
    assert!(second.floods.is_empty());
    let resp = second.reply.unwrap();
    assert_eq!(resp.body.msg_type, "broadcast_ok");
    assert_eq!(resp.body.in_reply_to, Some(3));
}

#[test]
fn peer_flood_gets_no_reply() {
    let mut node = Node::new("n1".to_owned());
    node.handle_request(topology(vec![("n1", vec!["n2"])], Some(1))).unwrap();
    let out = node.handle_request(broadcast(7, None)).unwrap();
    assert!(out.reply.is_none());
    assert_eq!(out.floods.len(), 1);
    assert_eq!(out.floods[0].dest, "n2");
}

#[test]
fn client_broadcast_is_acknowledged_once() {
    let mut node = Node::new("n1".to_owned());
    let novel = node.handle_request(broadcast(7, Some(4))).unwrap();
    let resp = novel.reply.unwrap();
    assert_eq!(resp.body.msg_type, "broadcast_ok");
    assert_eq!(resp.body.in_reply_to, Some(4));
    assert_eq!(resp.body.msg_id, Some(4));
    let repeat = node.handle_request(broadcast(7, Some(5))).unwrap();
    let resp = repeat.reply.unwrap();
    assert_eq!(resp.body.msg_type, "broadcast_ok");
    assert_eq!(resp.body.in_reply_to, Some(5));
}

#[test]
fn broadcast_without_message_is_an_error() {
    let mut node = Node::new("n1".to_owned());
    let mut req = request("broadcast");
    req.body.msg_id = Some(2);
    let err = node.handle_request(req).unwrap_err();
    assert_eq!(err, ProtocolError::MissingMessage);
    assert!(node.messages.is_empty());
}

#[test]
fn read_returns_current_store() {
    let mut node = Node::new("n1".to_owned());
    let mut req = request("read");
    req.body.msg_id = Some(9);
    let out = node.handle_request(req).unwrap();
    let resp = out.reply.unwrap();
    assert_eq!(resp.body.msg_type, "read_ok");
    assert_eq!(resp.body.messages, Some(vec![]));
    assert_eq!(resp.body.in_reply_to, Some(9));

    for value in [4, 8, 4] {
        node.handle_request(broadcast(value, None)).unwrap();
    }
    let mut req = request("read");
    req.body.msg_id = Some(10);
    let out = node.handle_request(req).unwrap();
    let resp = out.reply.unwrap();
    assert_eq!(resp.body.messages, Some(vec![4, 8]));
    assert_eq!(node.messages, vec![4, 8]);
}

#[test]
fn unknown_message_type_is_an_error() {
    let mut node = Node::new("n1".to_owned());
    let err = node.handle_request(request("poll")).unwrap_err();
    assert_eq!(err, ProtocolError::UnknownMessageType);
}

#[test]
fn flood_to_neighbour_builds_a_bare_broadcast() {
    let node = Node::new("n1".to_owned());
    let flood = node.flood_to_neighbour("n4".to_owned(), 11);
    assert!(flood.id.is_none());
    assert_eq!(flood.src, "n1");
    assert_eq!(flood.dest, "n4");
    assert_eq!(flood.body.msg_type, "broadcast");
    assert_eq!(flood.body.message, Some(11));
    assert!(flood.body.msg_id.is_none());
    assert!(flood.body.node_id.is_none());
    assert!(flood.body.node_ids.is_none());
    assert!(flood.body.echo.is_none());
    assert!(flood.body.topology.is_none());
}

#[test]
fn store_invariant_check_accepts_and_rejects() {
    let mut node = Node::new("n1".to_owned());
    for value in [1, 2, 3] {
        node.handle_request(broadcast(value, None)).unwrap();
    }
    assert!(node.store_is_duplicate_free());
    let torn = Node {
        id: "n1".to_owned(),
        neighbours: vec![],
        messages: vec![1, 2, 1],
    };
    assert!(!torn.store_is_duplicate_free());
}
