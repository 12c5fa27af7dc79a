use broadcast_node::codec::decode_request;
use broadcast_node::codec::decode_response;
use broadcast_node::codec::encode_request;
use broadcast_node::codec::encode_response;
use broadcast_node::codec::WireEnvelope;
use broadcast_node::codec::WireKey;
use broadcast_node::codec::WireValue;
use broadcast_node::models::ProtocolError;
use broadcast_node::models::ReplyMessageBody;
use broadcast_node::models::Request;
use broadcast_node::models::RequestMessageBody;
use broadcast_node::models::Response;
use broadcast_node::node::Node;

fn read_ok_reply() -> Response {
    Response {
        src: "n1".to_owned(),
        dest: "c1".to_owned(),
        body: ReplyMessageBody {
            node_id: None,
            msg_id: Some(10),
            msg_type: "read_ok".to_owned(),
            in_reply_to: Some(10),
            echo: None,
            messages: Some(vec![4, 8]),
        },
    }
}

#[test]
fn response_round_trip_keeps_logical_fields() {
    let original = read_ok_reply();
    let wire = encode_response(read_ok_reply());
    assert!(wire.id.is_none());
    let back = decode_response(wire).unwrap();
    assert_eq!(back.src, original.src);
    assert_eq!(back.dest, original.dest);
    assert_eq!(back.body.msg_type, original.body.msg_type);
    assert_eq!(back.body.node_id, original.body.node_id);
    assert_eq!(back.body.msg_id, original.body.msg_id);
    assert_eq!(back.body.in_reply_to, original.body.in_reply_to);
    assert_eq!(back.body.echo, original.body.echo);
    assert_eq!(back.body.messages, original.body.messages);
}

#[test]
fn absent_fields_are_omitted_and_decode_as_absent() {
    let reply = Response {
        src: "n1".to_owned(),
        dest: "c1".to_owned(),
        body: ReplyMessageBody {
            node_id: None,
            msg_id: None,
            msg_type: "echo_ok".to_owned(),
            in_reply_to: None,
            echo: Some("hi".to_owned()),
            messages: None,
        },
    };
    let wire = encode_response(reply);
    assert_eq!(wire.body.len(), 2);
    assert!(matches!(wire.body[0], (WireKey::Type, WireValue::Text(_))));
    assert!(matches!(wire.body[1], (WireKey::Echo, WireValue::Text(_))));
    let back = decode_response(wire).unwrap();
    assert!(back.body.node_id.is_none());
    assert!(back.body.msg_id.is_none());
    assert!(back.body.in_reply_to.is_none());
    assert!(back.body.messages.is_none());
    assert_eq!(back.body.echo.as_deref(), Some("hi"));
}

#[test]
fn flood_request_round_trip() {
    let node = Node::new("n1".to_owned());
    let flood = node.flood_to_neighbour("n2".to_owned(), 9);
    let wire = encode_request(flood);
    assert!(wire.id.is_none());
    assert_eq!(wire.body.len(), 2);
    let back = decode_request(wire).unwrap();
    assert!(back.id.is_none());
    assert_eq!(back.src, "n1");
    assert_eq!(back.dest, "n2");
    assert_eq!(back.body.msg_type, "broadcast");
    assert_eq!(back.body.message, Some(9));
    assert!(back.body.msg_id.is_none());
    assert!(back.body.node_id.is_none());
    assert!(back.body.node_ids.is_none());
    assert!(back.body.echo.is_none());
    assert!(back.body.topology.is_none());
}

#[test]
fn full_request_round_trip() {
    let original = Request {
        id: Some(3),
        src: "c1".to_owned(),
        dest: "n1".to_owned(),
        body: RequestMessageBody {
            node_id: Some("n7".to_owned()),
            msg_type: "init".to_owned(),
            node_ids: Some(vec!["n7".to_owned(), "n8".to_owned()]),
            msg_id: Some(1),
            echo: None,
            topology: Some(vec![("n7".to_owned(), vec!["n8".to_owned()])]),
            message: None,
        },
    };
    let wire = encode_request(Request {
        id: original.id,
        src: original.src.clone(),
        dest: original.dest.clone(),
        body: RequestMessageBody {
            node_id: original.body.node_id.clone(),
            msg_type: original.body.msg_type.clone(),
            node_ids: original.body.node_ids.clone(),
            msg_id: original.body.msg_id,
            echo: original.body.echo.clone(),
            topology: original.body.topology.clone(),
            message: original.body.message,
        },
    });
    let back = decode_request(wire).unwrap();
    assert_eq!(back.id, original.id);
    assert_eq!(back.src, original.src);
    assert_eq!(back.dest, original.dest);
    assert_eq!(back.body.node_id, original.body.node_id);
    assert_eq!(back.body.msg_type, original.body.msg_type);
    assert_eq!(back.body.node_ids, original.body.node_ids);
    assert_eq!(back.body.msg_id, original.body.msg_id);
    assert_eq!(back.body.echo, original.body.echo);
    assert_eq!(back.body.topology, original.body.topology);
    assert_eq!(back.body.message, original.body.message);
}

#[test]
fn body_without_type_is_an_error() {
    let wire = WireEnvelope {
        id: None,
        src: "c1".to_owned(),
        dest: "n1".to_owned(),
        body: vec![(WireKey::MsgId, WireValue::Num(1))],
    };
    let err = decode_request(wire).unwrap_err();
    assert_eq!(err, ProtocolError::MissingMessageType);
}

#[test]
fn field_of_wrong_shape_is_an_error() {
    let wire = WireEnvelope {
        id: None,
        src: "c1".to_owned(),
        dest: "n1".to_owned(),
        body: vec![
            (WireKey::Type, WireValue::Text("echo".to_owned())),
            (WireKey::Echo, WireValue::Num(3)),
        ],
    };
    let err = decode_request(wire).unwrap_err();
    assert_eq!(err, ProtocolError::MalformedField);
}

#[test]
fn first_occurrence_of_a_key_wins() {
    let wire = WireEnvelope {
        id: None,
        src: "c1".to_owned(),
        dest: "n1".to_owned(),
        body: vec![
            (WireKey::Type, WireValue::Text("broadcast".to_owned())),
            (WireKey::Message, WireValue::Int(1)),
            (WireKey::Message, WireValue::Int(2)),
        ],
    };
    let back = decode_request(wire).unwrap();
    assert_eq!(back.body.message, Some(1));
}
