//! Wire-object codec.
//!
//! A JSON surface carries each envelope as an object whose body is a list
//! of key/value pairs; a field whose value is absent is omitted from that
//! list entirely. This module translates between the envelope types and
//! that wire shape: encoding lays the present fields out in order, and
//! decoding looks each key up (first occurrence wins), rejecting a value
//! of the wrong shape and a body without a message-type tag. Rendering
//! the wire object as JSON text is the JSON library's work and carries no
//! protocol logic.

use vstd::prelude::*;

use crate::models::ProtocolError;
use crate::models::ReplyMessageBody;
use crate::models::Request;
use crate::models::RequestMessageBody;
use crate::models::Response;

verus! {

/// The body field names of the wire format.
#[derive(Clone, Copy, Debug, PartialEq, Eq, Structural)]
pub enum WireKey {
    Type,
    NodeId,
    NodeIds,
    MsgId,
    InReplyTo,
    Echo,
    Topology,
    Message,
    Messages,
}

/// A body field value as the wire carries it, by schema shape.
pub enum WireValue {
    /// A JSON string.
    Text(String),
    /// A non-negative integer, as correlation ids use it.
    Num(usize),
    /// A signed integer, the broadcast payload.
    Int(i32),
    /// A list of signed integers, the store snapshot of `read_ok`.
    IntList(Vec<i32>),
    /// A list of strings, the cluster roster.
    TextList(Vec<String>),
    /// A mapping from node identifier to neighbour list, as an ordered
    /// list of entries.
    Table(Vec<(String, Vec<String>)>),
}

/// One envelope in wire shape: the addressing fields and the body as an
/// ordered list of key/value pairs.
pub struct WireEnvelope {
    pub id: Option<usize>,
    pub src: String,
    pub dest: String,
    pub body: Vec<(WireKey, WireValue)>,
}

/// The value of the first body field with key `k`, if any.
pub open spec fn wire_lookup(s: Seq<(WireKey, WireValue)>, k: WireKey) -> Option<WireValue>
    decreases s.len(),
{
    if s.len() == 0 {
        None
    } else if s[0].0 == k {
        Some(s[0].1)
    } else {
        wire_lookup(s.drop_first(), k)
    }
}

/// The fields an optional string contributes: one `Text` pair, or none.
pub open spec fn opt_text(k: WireKey, v: Option<String>) -> Seq<(WireKey, WireValue)> {
    match v {
        None => Seq::empty(),
        Some(s) => seq![(k, WireValue::Text(s))],
    }
}

/// The fields an optional correlation number contributes.
pub open spec fn opt_num(k: WireKey, v: Option<usize>) -> Seq<(WireKey, WireValue)> {
    match v {
        None => Seq::empty(),
        Some(n) => seq![(k, WireValue::Num(n))],
    }
}

/// The fields an optional broadcast payload contributes.
pub open spec fn opt_int(k: WireKey, v: Option<i32>) -> Seq<(WireKey, WireValue)> {
    match v {
        None => Seq::empty(),
        Some(n) => seq![(k, WireValue::Int(n))],
    }
}

/// The fields an optional integer list contributes.
pub open spec fn opt_int_list(k: WireKey, v: Option<Vec<i32>>) -> Seq<(WireKey, WireValue)> {
    match v {
        None => Seq::empty(),
        Some(l) => seq![(k, WireValue::IntList(l))],
    }
}

/// The fields an optional string list contributes.
pub open spec fn opt_text_list(k: WireKey, v: Option<Vec<String>>) -> Seq<(WireKey, WireValue)> {
    match v {
        None => Seq::empty(),
        Some(l) => seq![(k, WireValue::TextList(l))],
    }
}

/// The fields an optional topology mapping contributes.
pub open spec fn opt_table(k: WireKey, v: Option<Vec<(String, Vec<String>)>>) -> Seq<
    (WireKey, WireValue),
> {
    match v {
        None => Seq::empty(),
        Some(t) => seq![(k, WireValue::Table(t))],
    }
}

/// The wire fields of a reply body: the tag first, then every present
/// optional field, absent ones omitted.
pub open spec fn reply_fields(b: ReplyMessageBody) -> Seq<(WireKey, WireValue)> {
    seq![(WireKey::Type, WireValue::Text(b.msg_type))] + (opt_text(WireKey::NodeId, b.node_id) + (
    opt_num(WireKey::MsgId, b.msg_id) + (opt_num(WireKey::InReplyTo, b.in_reply_to) + (opt_text(
        WireKey::Echo,
        b.echo,
    ) + opt_int_list(WireKey::Messages, b.messages)))))
}

/// The wire fields of a request body: the tag first, then every present
/// optional field, absent ones omitted.
pub open spec fn request_fields(b: RequestMessageBody) -> Seq<(WireKey, WireValue)> {
    seq![(WireKey::Type, WireValue::Text(b.msg_type))] + (opt_text(WireKey::NodeId, b.node_id) + (
    opt_text_list(WireKey::NodeIds, b.node_ids) + (opt_num(WireKey::MsgId, b.msg_id) + (opt_text(
        WireKey::Echo,
        b.echo,
    ) + (opt_table(WireKey::Topology, b.topology) + opt_int(WireKey::Message, b.message))))))
}

/// Lay a reply envelope out in wire shape. A reply carries no envelope id.
pub fn encode_response(r: Response) -> (w: WireEnvelope)
    ensures
        w.id is None,
        w.src == r.src,
        w.dest == r.dest,
        w.body@ == reply_fields(r.body),
{
    let Response { src, dest, body } = r;
    let ReplyMessageBody { node_id, msg_id, msg_type, in_reply_to, echo, messages } = body;
    let mut fields: Vec<(WireKey, WireValue)> = Vec::new();
    fields.push((WireKey::Type, WireValue::Text(msg_type)));
    if let Some(s) = node_id {
        fields.push((WireKey::NodeId, WireValue::Text(s)));
    }
    if let Some(n) = msg_id {
        fields.push((WireKey::MsgId, WireValue::Num(n)));
    }
    if let Some(n) = in_reply_to {
        fields.push((WireKey::InReplyTo, WireValue::Num(n)));
    }
    if let Some(s) = echo {
        fields.push((WireKey::Echo, WireValue::Text(s)));
    }
    if let Some(l) = messages {
        fields.push((WireKey::Messages, WireValue::IntList(l)));
    }
    proof {
        assert(fields@ =~= reply_fields(r.body));
    }
    WireEnvelope { id: None, src, dest, body: fields }
}

/// Lay a request envelope out in wire shape; a flood built by
/// `flood_to_neighbour` has no envelope id and only the tag and payload.
pub fn encode_request(r: Request) -> (w: WireEnvelope)
    ensures
        w.id == r.id,
        w.src == r.src,
        w.dest == r.dest,
        w.body@ == request_fields(r.body),
{
    let Request { id, src, dest, body } = r;
    let RequestMessageBody { node_id, msg_type, node_ids, msg_id, echo, topology, message } = body;
    let mut fields: Vec<(WireKey, WireValue)> = Vec::new();
    fields.push((WireKey::Type, WireValue::Text(msg_type)));
    if let Some(s) = node_id {
        fields.push((WireKey::NodeId, WireValue::Text(s)));
    }
    if let Some(l) = node_ids {
        fields.push((WireKey::NodeIds, WireValue::TextList(l)));
    }
    if let Some(n) = msg_id {
        fields.push((WireKey::MsgId, WireValue::Num(n)));
    }
    if let Some(s) = echo {
        fields.push((WireKey::Echo, WireValue::Text(s)));
    }
    if let Some(t) = topology {
        fields.push((WireKey::Topology, WireValue::Table(t)));
    }
    if let Some(n) = message {
        fields.push((WireKey::Message, WireValue::Int(n)));
    }
    proof {
        assert(fields@ =~= request_fields(r.body));
    }
    WireEnvelope { id, src, dest, body: fields }
}

/// The decoded optional string at key `k`: absent, present, or of the
/// wrong shape.
pub open spec fn text_field(s: Seq<(WireKey, WireValue)>, k: WireKey) -> Result<
    Option<String>,
    ProtocolError,
> {
    match wire_lookup(s, k) {
        None => Ok(None),
        Some(WireValue::Text(t)) => Ok(Some(t)),
        Some(_) => Err(ProtocolError::MalformedField),
    }
}

/// The decoded optional correlation number at key `k`.
pub open spec fn num_field(s: Seq<(WireKey, WireValue)>, k: WireKey) -> Result<
    Option<usize>,
    ProtocolError,
> {
    match wire_lookup(s, k) {
        None => Ok(None),
        Some(WireValue::Num(n)) => Ok(Some(n)),
        Some(_) => Err(ProtocolError::MalformedField),
    }
}

/// The decoded optional broadcast payload at key `k`.
pub open spec fn int_field(s: Seq<(WireKey, WireValue)>, k: WireKey) -> Result<
    Option<i32>,
    ProtocolError,
> {
    match wire_lookup(s, k) {
        None => Ok(None),
        Some(WireValue::Int(n)) => Ok(Some(n)),
        Some(_) => Err(ProtocolError::MalformedField),
    }
}

/// The decoded optional integer list at key `k`.
pub open spec fn int_list_field(s: Seq<(WireKey, WireValue)>, k: WireKey) -> Result<
    Option<Vec<i32>>,
    ProtocolError,
> {
    match wire_lookup(s, k) {
        None => Ok(None),
        Some(WireValue::IntList(l)) => Ok(Some(l)),
        Some(_) => Err(ProtocolError::MalformedField),
    }
}

/// The decoded optional string list at key `k`.
pub open spec fn text_list_field(s: Seq<(WireKey, WireValue)>, k: WireKey) -> Result<
    Option<Vec<String>>,
    ProtocolError,
> {
    match wire_lookup(s, k) {
        None => Ok(None),
        Some(WireValue::TextList(l)) => Ok(Some(l)),
        Some(_) => Err(ProtocolError::MalformedField),
    }
}

/// The decoded optional topology mapping at key `k`.
pub open spec fn table_field(s: Seq<(WireKey, WireValue)>, k: WireKey) -> Result<
    Option<Vec<(String, Vec<String>)>>,
    ProtocolError,
> {
    match wire_lookup(s, k) {
        None => Ok(None),
        Some(WireValue::Table(t)) => Ok(Some(t)),
        Some(_) => Err(ProtocolError::MalformedField),
    }
}

/// What decoding a reply body from its wire fields yields: the body, or
/// the error the field list commits.
pub open spec fn spec_decode_reply_body(s: Seq<(WireKey, WireValue)>) -> Result<
    ReplyMessageBody,
    ProtocolError,
> {
    match wire_lookup(s, WireKey::Type) {
        None => Err(ProtocolError::MissingMessageType),
        Some(WireValue::Text(t)) => {
            match (text_field(s, WireKey::NodeId), num_field(s, WireKey::MsgId), num_field(
                s,
                WireKey::InReplyTo,
            ), text_field(s, WireKey::Echo), int_list_field(s, WireKey::Messages)) {
                (Ok(node_id), Ok(msg_id), Ok(in_reply_to), Ok(echo), Ok(messages)) => Ok(
                    ReplyMessageBody { node_id, msg_id, msg_type: t, in_reply_to, echo, messages },
                ),
                _ => Err(ProtocolError::MalformedField),
            }
        },
        Some(_) => Err(ProtocolError::MalformedField),
    }
}

/// What decoding a request body from its wire fields yields.
pub open spec fn spec_decode_request_body(s: Seq<(WireKey, WireValue)>) -> Result<
    RequestMessageBody,
    ProtocolError,
> {
    match wire_lookup(s, WireKey::Type) {
        None => Err(ProtocolError::MissingMessageType),
        Some(WireValue::Text(t)) => {
            match (text_field(s, WireKey::NodeId), text_list_field(s, WireKey::NodeIds), num_field(
                s,
                WireKey::MsgId,
            ), text_field(s, WireKey::Echo), table_field(s, WireKey::Topology), int_field(
                s,
                WireKey::Message,
            )) {
                (Ok(node_id), Ok(node_ids), Ok(msg_id), Ok(echo), Ok(topology), Ok(message)) => Ok(
                    RequestMessageBody {
                        node_id,
                        msg_type: t,
                        node_ids,
                        msg_id,
                        echo,
                        topology,
                        message,
                    },
                ),
                _ => Err(ProtocolError::MalformedField),
            }
        },
        Some(_) => Err(ProtocolError::MalformedField),
    }
}

/// What decoding a whole reply envelope yields.
pub open spec fn spec_decode_response(w: WireEnvelope) -> Result<Response, ProtocolError> {
    match spec_decode_reply_body(w.body@) {
        Ok(b) => Ok(Response { src: w.src, dest: w.dest, body: b }),
        Err(e) => Err(e),
    }
}

/// What decoding a whole request envelope yields.
pub open spec fn spec_decode_request(w: WireEnvelope) -> Result<Request, ProtocolError> {
    match spec_decode_request_body(w.body@) {
        Ok(b) => Ok(Request { id: w.id, src: w.src, dest: w.dest, body: b }),
        Err(e) => Err(e),
    }
}

/// Read a reply envelope back from wire shape.
pub fn decode_response(w: WireEnvelope) -> (r: Result<Response, ProtocolError>)
    ensures
        r == spec_decode_response(w),
{
    let WireEnvelope { id: _, src, dest, body } = w;
    match decode_reply_body(body) {
        Ok(b) => Ok(Response { src, dest, body: b }),
        Err(e) => Err(e),
    }
}

/// Read a request envelope back from wire shape.
pub fn decode_request(w: WireEnvelope) -> (r: Result<Request, ProtocolError>)
    ensures
        r == spec_decode_request(w),
{
    let WireEnvelope { id, src, dest, body } = w;
    match decode_request_body(body) {
        Ok(b) => Ok(Request { id, src, dest, body: b }),
        Err(e) => Err(e),
    }
}

/// Collect the first occurrence of each known key, walking the field list
/// from the back so that an earlier occurrence overwrites a later one.
fn decode_reply_body(fields: Vec<(WireKey, WireValue)>) -> (r: Result<
    ReplyMessageBody,
    ProtocolError,
>)
    ensures
        r == spec_decode_reply_body(fields@),
{
    let ghost s = fields@;
    let mut fields = fields;
    let mut f_type: Option<WireValue> = None;
    let mut f_node_id: Option<WireValue> = None;
    let mut f_msg_id: Option<WireValue> = None;
    let mut f_in_reply_to: Option<WireValue> = None;
    let mut f_echo: Option<WireValue> = None;
    let mut f_messages: Option<WireValue> = None;
    proof {
        assert(fields@ =~= s.take(fields@.len() as int));
        assert(s.skip(s.len() as int) =~= Seq::<(WireKey, WireValue)>::empty());
    }
    while fields.len() > 0
        invariant
            fields@.len() <= s.len(),
            fields@ == s.take(fields@.len() as int),
            f_type == wire_lookup(s.skip(fields@.len() as int), WireKey::Type),
            f_node_id == wire_lookup(s.skip(fields@.len() as int), WireKey::NodeId),
            f_msg_id == wire_lookup(s.skip(fields@.len() as int), WireKey::MsgId),
            f_in_reply_to == wire_lookup(s.skip(fields@.len() as int), WireKey::InReplyTo),
            f_echo == wire_lookup(s.skip(fields@.len() as int), WireKey::Echo),
            f_messages == wire_lookup(s.skip(fields@.len() as int), WireKey::Messages),
        decreases fields@.len(),
    {
        let ghost n = fields@.len() as int;
        let popped = fields.pop();
        proof {
            assert(fields@ =~= s.take(n - 1));
            assert(s.skip(n - 1)[0] == s[n - 1]);
            assert(s.skip(n - 1).drop_first() =~= s.skip(n));
        }
        if let Some((k, v)) = popped {
            match k {
                WireKey::Type => f_type = Some(v),
                WireKey::NodeId => f_node_id = Some(v),
                WireKey::MsgId => f_msg_id = Some(v),
                WireKey::InReplyTo => f_in_reply_to = Some(v),
                WireKey::Echo => f_echo = Some(v),
                WireKey::Messages => f_messages = Some(v),
                WireKey::NodeIds => (),
                WireKey::Topology => (),
                WireKey::Message => (),
            }
        }
    }
    proof {
        assert(s.skip(0) =~= s);
    }
    let msg_type = match f_type {
        None => {
            return Err(ProtocolError::MissingMessageType);
        },
        Some(WireValue::Text(t)) => t,
        Some(_) => {
            return Err(ProtocolError::MalformedField);
        },
    };
    let node_id = match f_node_id {
        None => None,
        Some(WireValue::Text(t)) => Some(t),
        Some(_) => {
            return Err(ProtocolError::MalformedField);
        },
    };
    let msg_id = match f_msg_id {
        None => None,
        Some(WireValue::Num(n)) => Some(n),
        Some(_) => {
            return Err(ProtocolError::MalformedField);
        },
    };
    let in_reply_to = match f_in_reply_to {
        None => None,
        Some(WireValue::Num(n)) => Some(n),
        Some(_) => {
            return Err(ProtocolError::MalformedField);
        },
    };
    let echo = match f_echo {
        None => None,
        Some(WireValue::Text(t)) => Some(t),
        Some(_) => {
            return Err(ProtocolError::MalformedField);
        },
    };
    let messages = match f_messages {
        None => None,
        Some(WireValue::IntList(l)) => Some(l),
        Some(_) => {
            return Err(ProtocolError::MalformedField);
        },
    };
    Ok(ReplyMessageBody { node_id, msg_id, msg_type, in_reply_to, echo, messages })
}

/// Collect the first occurrence of each known key of a request body.
fn decode_request_body(fields: Vec<(WireKey, WireValue)>) -> (r: Result<
    RequestMessageBody,
    ProtocolError,
>)
    ensures
        r == spec_decode_request_body(fields@),
{
    let ghost s = fields@;
    let mut fields = fields;
    let mut f_type: Option<WireValue> = None;
    let mut f_node_id: Option<WireValue> = None;
    let mut f_node_ids: Option<WireValue> = None;
    let mut f_msg_id: Option<WireValue> = None;
    let mut f_echo: Option<WireValue> = None;
    let mut f_topology: Option<WireValue> = None;
    let mut f_message: Option<WireValue> = None;
    proof {
        assert(fields@ =~= s.take(fields@.len() as int));
        assert(s.skip(s.len() as int) =~= Seq::<(WireKey, WireValue)>::empty());
    }
    while fields.len() > 0
        invariant
            fields@.len() <= s.len(),
            fields@ == s.take(fields@.len() as int),
            f_type == wire_lookup(s.skip(fields@.len() as int), WireKey::Type),
            f_node_id == wire_lookup(s.skip(fields@.len() as int), WireKey::NodeId),
            f_node_ids == wire_lookup(s.skip(fields@.len() as int), WireKey::NodeIds),
            f_msg_id == wire_lookup(s.skip(fields@.len() as int), WireKey::MsgId),
            f_echo == wire_lookup(s.skip(fields@.len() as int), WireKey::Echo),
            f_topology == wire_lookup(s.skip(fields@.len() as int), WireKey::Topology),
            f_message == wire_lookup(s.skip(fields@.len() as int), WireKey::Message),
        decreases fields@.len(),
    {
        let ghost n = fields@.len() as int;
        let popped = fields.pop();
        proof {
            assert(fields@ =~= s.take(n - 1));
            assert(s.skip(n - 1)[0] == s[n - 1]);
            assert(s.skip(n - 1).drop_first() =~= s.skip(n));
        }
        if let Some((k, v)) = popped {
            match k {
                WireKey::Type => f_type = Some(v),
                WireKey::NodeId => f_node_id = Some(v),
                WireKey::NodeIds => f_node_ids = Some(v),
                WireKey::MsgId => f_msg_id = Some(v),
                WireKey::Echo => f_echo = Some(v),
                WireKey::Topology => f_topology = Some(v),
                WireKey::Message => f_message = Some(v),
                WireKey::InReplyTo => (),
                WireKey::Messages => (),
            }
        }
    }
    proof {
        assert(s.skip(0) =~= s);
    }
    let msg_type = match f_type {
        None => {
            return Err(ProtocolError::MissingMessageType);
        },
        Some(WireValue::Text(t)) => t,
        Some(_) => {
            return Err(ProtocolError::MalformedField);
        },
    };
    let node_id = match f_node_id {
        None => None,
        Some(WireValue::Text(t)) => Some(t),
        Some(_) => {
            return Err(ProtocolError::MalformedField);
        },
    };
    let node_ids = match f_node_ids {
        None => None,
        Some(WireValue::TextList(l)) => Some(l),
        Some(_) => {
            return Err(ProtocolError::MalformedField);
        },
    };
    let msg_id = match f_msg_id {
        None => None,
        Some(WireValue::Num(n)) => Some(n),
        Some(_) => {
            return Err(ProtocolError::MalformedField);
        },
    };
    let echo = match f_echo {
        None => None,
        Some(WireValue::Text(t)) => Some(t),
        Some(_) => {
            return Err(ProtocolError::MalformedField);
        },
    };
    let topology = match f_topology {
        None => None,
        Some(WireValue::Table(t)) => Some(t),
        Some(_) => {
            return Err(ProtocolError::MalformedField);
        },
    };
    let message = match f_message {
        None => None,
        Some(WireValue::Int(n)) => Some(n),
        Some(_) => {
            return Err(ProtocolError::MalformedField);
        },
    };
    Ok(RequestMessageBody { node_id, msg_type, node_ids, msg_id, echo, topology, message })
}


/// A first segment that opens with key `k` settles the lookup.
proof fn lemma_lookup_hit(seg: Seq<(WireKey, WireValue)>, rest: Seq<(WireKey, WireValue)>, k: WireKey)
    requires
        seg.len() > 0,
        seg[0].0 == k,
    ensures
        wire_lookup(seg + rest, k) == Some(seg[0].1),
{
    assert((seg + rest)[0] == seg[0]);
}

/// A first segment without key `k` leaves the lookup to the rest.
proof fn lemma_lookup_skip(seg: Seq<(WireKey, WireValue)>, rest: Seq<(WireKey, WireValue)>, k: WireKey)
    requires
        forall|i: int| 0 <= i < seg.len() ==> seg[i].0 != k,
    ensures
        wire_lookup(seg + rest, k) == wire_lookup(rest, k),
    decreases seg.len(),
{
    if seg.len() == 0 {
        assert(seg + rest =~= rest);
    } else {
        assert((seg + rest)[0] == seg[0]);
        assert((seg + rest).drop_first() =~= seg.drop_first() + rest);
        assert(forall|i: int| 0 <= i < seg.drop_first().len() ==> seg.drop_first()[i].0 != k);
        lemma_lookup_skip(seg.drop_first(), rest, k);
    }
}

/// A field list without key `k` has nothing at it.
proof fn lemma_lookup_none(s: Seq<(WireKey, WireValue)>, k: WireKey)
    requires
        forall|i: int| 0 <= i < s.len() ==> s[i].0 != k,
    ensures
        wire_lookup(s, k) is None,
    decreases s.len(),
{
    if s.len() > 0 {
        assert(forall|i: int| 0 <= i < s.drop_first().len() ==> s.drop_first()[i].0 != k);
        lemma_lookup_none(s.drop_first(), k);
    }
}

/// Where each key of a reply body ends up in its wire fields.
proof fn lemma_reply_fields_lookup(b: ReplyMessageBody)
    ensures
        wire_lookup(reply_fields(b), WireKey::Type) == Some(WireValue::Text(b.msg_type)),
        wire_lookup(reply_fields(b), WireKey::NodeId) == match b.node_id {
            None => None::<WireValue>,
            Some(s) => Some(WireValue::Text(s)),
        },
        wire_lookup(reply_fields(b), WireKey::MsgId) == match b.msg_id {
            None => None::<WireValue>,
            Some(n) => Some(WireValue::Num(n)),
        },
        wire_lookup(reply_fields(b), WireKey::InReplyTo) == match b.in_reply_to {
            None => None::<WireValue>,
            Some(n) => Some(WireValue::Num(n)),
        },
        wire_lookup(reply_fields(b), WireKey::Echo) == match b.echo {
            None => None::<WireValue>,
            Some(s) => Some(WireValue::Text(s)),
        },
        wire_lookup(reply_fields(b), WireKey::Messages) == match b.messages {
            None => None::<WireValue>,
            Some(l) => Some(WireValue::IntList(l)),
        },
{
    let s0 = seq![(WireKey::Type, WireValue::Text(b.msg_type))];
    let s1 = opt_text(WireKey::NodeId, b.node_id);
    let s2 = opt_num(WireKey::MsgId, b.msg_id);
    let s3 = opt_num(WireKey::InReplyTo, b.in_reply_to);
    let s4 = opt_text(WireKey::Echo, b.echo);
    let s5 = opt_int_list(WireKey::Messages, b.messages);
    let r4 = s4 + s5;
    let r3 = s3 + r4;
    let r2 = s2 + r3;
    let r1 = s1 + r2;
    lemma_lookup_hit(s0, r1, WireKey::Type);
    lemma_lookup_skip(s0, r1, WireKey::NodeId);
    if b.node_id is Some {
        lemma_lookup_hit(s1, r2, WireKey::NodeId);
    } else {
        lemma_lookup_skip(s1, r2, WireKey::NodeId);
        lemma_lookup_skip(s2, r3, WireKey::NodeId);
        lemma_lookup_skip(s3, r4, WireKey::NodeId);
        lemma_lookup_skip(s4, s5, WireKey::NodeId);
        lemma_lookup_none(s5, WireKey::NodeId);
    }
    lemma_lookup_skip(s0, r1, WireKey::MsgId);
    lemma_lookup_skip(s1, r2, WireKey::MsgId);
    if b.msg_id is Some {
        lemma_lookup_hit(s2, r3, WireKey::MsgId);
    } else {
        lemma_lookup_skip(s2, r3, WireKey::MsgId);
        lemma_lookup_skip(s3, r4, WireKey::MsgId);
        lemma_lookup_skip(s4, s5, WireKey::MsgId);
        lemma_lookup_none(s5, WireKey::MsgId);
    }
    lemma_lookup_skip(s0, r1, WireKey::InReplyTo);
    lemma_lookup_skip(s1, r2, WireKey::InReplyTo);
    lemma_lookup_skip(s2, r3, WireKey::InReplyTo);
    if b.in_reply_to is Some {
        lemma_lookup_hit(s3, r4, WireKey::InReplyTo);
    } else {
        lemma_lookup_skip(s3, r4, WireKey::InReplyTo);
        lemma_lookup_skip(s4, s5, WireKey::InReplyTo);
        lemma_lookup_none(s5, WireKey::InReplyTo);
    }
    lemma_lookup_skip(s0, r1, WireKey::Echo);
    lemma_lookup_skip(s1, r2, WireKey::Echo);
    lemma_lookup_skip(s2, r3, WireKey::Echo);
    lemma_lookup_skip(s3, r4, WireKey::Echo);
    if b.echo is Some {
        lemma_lookup_hit(s4, s5, WireKey::Echo);
    } else {
        lemma_lookup_skip(s4, s5, WireKey::Echo);
        lemma_lookup_none(s5, WireKey::Echo);
    }
    lemma_lookup_skip(s0, r1, WireKey::Messages);
    lemma_lookup_skip(s1, r2, WireKey::Messages);
    lemma_lookup_skip(s2, r3, WireKey::Messages);
    lemma_lookup_skip(s3, r4, WireKey::Messages);
    lemma_lookup_skip(s4, s5, WireKey::Messages);
    if b.messages is None {
        lemma_lookup_none(s5, WireKey::Messages);
    }
}

/// Where each key of a request body ends up in its wire fields.
proof fn lemma_request_fields_lookup(b: RequestMessageBody)
    ensures
        wire_lookup(request_fields(b), WireKey::Type) == Some(WireValue::Text(b.msg_type)),
        wire_lookup(request_fields(b), WireKey::NodeId) == match b.node_id {
            None => None::<WireValue>,
            Some(s) => Some(WireValue::Text(s)),
        },
        wire_lookup(request_fields(b), WireKey::NodeIds) == match b.node_ids {
            None => None::<WireValue>,
            Some(l) => Some(WireValue::TextList(l)),
        },
        wire_lookup(request_fields(b), WireKey::MsgId) == match b.msg_id {
            None => None::<WireValue>,
            Some(n) => Some(WireValue::Num(n)),
        },
        wire_lookup(request_fields(b), WireKey::Echo) == match b.echo {
            None => None::<WireValue>,
            Some(s) => Some(WireValue::Text(s)),
        },
        wire_lookup(request_fields(b), WireKey::Topology) == match b.topology {
            None => None::<WireValue>,
            Some(t) => Some(WireValue::Table(t)),
        },
        wire_lookup(request_fields(b), WireKey::Message) == match b.message {
            None => None::<WireValue>,
            Some(n) => Some(WireValue::Int(n)),
        },
{
    let s0 = seq![(WireKey::Type, WireValue::Text(b.msg_type))];
    let s1 = opt_text(WireKey::NodeId, b.node_id);
    let s2 = opt_text_list(WireKey::NodeIds, b.node_ids);
    let s3 = opt_num(WireKey::MsgId, b.msg_id);
    let s4 = opt_text(WireKey::Echo, b.echo);
    let s5 = opt_table(WireKey::Topology, b.topology);
    let s6 = opt_int(WireKey::Message, b.message);
    let r5 = s5 + s6;
    let r4 = s4 + r5;
    let r3 = s3 + r4;
    let r2 = s2 + r3;
    let r1 = s1 + r2;
    lemma_lookup_hit(s0, r1, WireKey::Type);
    lemma_lookup_skip(s0, r1, WireKey::NodeId);
    if b.node_id is Some {
        lemma_lookup_hit(s1, r2, WireKey::NodeId);
    } else {
        lemma_lookup_skip(s1, r2, WireKey::NodeId);
        lemma_lookup_skip(s2, r3, WireKey::NodeId);
        lemma_lookup_skip(s3, r4, WireKey::NodeId);
        lemma_lookup_skip(s4, r5, WireKey::NodeId);
        lemma_lookup_skip(s5, s6, WireKey::NodeId);
        lemma_lookup_none(s6, WireKey::NodeId);
    }
    lemma_lookup_skip(s0, r1, WireKey::NodeIds);
    lemma_lookup_skip(s1, r2, WireKey::NodeIds);
    if b.node_ids is Some {
        lemma_lookup_hit(s2, r3, WireKey::NodeIds);
    } else {
        lemma_lookup_skip(s2, r3, WireKey::NodeIds);
        lemma_lookup_skip(s3, r4, WireKey::NodeIds);
        lemma_lookup_skip(s4, r5, WireKey::NodeIds);
        lemma_lookup_skip(s5, s6, WireKey::NodeIds);
        lemma_lookup_none(s6, WireKey::NodeIds);
    }
    lemma_lookup_skip(s0, r1, WireKey::MsgId);
    lemma_lookup_skip(s1, r2, WireKey::MsgId);
    lemma_lookup_skip(s2, r3, WireKey::MsgId);
    if b.msg_id is Some {
        lemma_lookup_hit(s3, r4, WireKey::MsgId);
    } else {
        lemma_lookup_skip(s3, r4, WireKey::MsgId);
        lemma_lookup_skip(s4, r5, WireKey::MsgId);
        lemma_lookup_skip(s5, s6, WireKey::MsgId);
        lemma_lookup_none(s6, WireKey::MsgId);
    }
    lemma_lookup_skip(s0, r1, WireKey::Echo);
    lemma_lookup_skip(s1, r2, WireKey::Echo);
    lemma_lookup_skip(s2, r3, WireKey::Echo);
    lemma_lookup_skip(s3, r4, WireKey::Echo);
    if b.echo is Some {
        lemma_lookup_hit(s4, r5, WireKey::Echo);
    } else {
        lemma_lookup_skip(s4, r5, WireKey::Echo);
        lemma_lookup_skip(s5, s6, WireKey::Echo);
        lemma_lookup_none(s6, WireKey::Echo);
    }
    lemma_lookup_skip(s0, r1, WireKey::Topology);
    lemma_lookup_skip(s1, r2, WireKey::Topology);
    lemma_lookup_skip(s2, r3, WireKey::Topology);
    lemma_lookup_skip(s3, r4, WireKey::Topology);
    lemma_lookup_skip(s4, r5, WireKey::Topology);
    if b.topology is Some {
        lemma_lookup_hit(s5, s6, WireKey::Topology);
    } else {
        lemma_lookup_skip(s5, s6, WireKey::Topology);
        lemma_lookup_none(s6, WireKey::Topology);
    }
    lemma_lookup_skip(s0, r1, WireKey::Message);
    lemma_lookup_skip(s1, r2, WireKey::Message);
    lemma_lookup_skip(s2, r3, WireKey::Message);
    lemma_lookup_skip(s3, r4, WireKey::Message);
    lemma_lookup_skip(s4, r5, WireKey::Message);
    lemma_lookup_skip(s5, s6, WireKey::Message);
    if b.message is None {
        lemma_lookup_none(s6, WireKey::Message);
    }
}

/// Law: encoding a reply body to wire fields and decoding them again
/// reproduces the same logical fields; omitting the absent fields loses
/// nothing.
pub proof fn lemma_reply_body_round_trip(b: ReplyMessageBody)
    ensures
        spec_decode_reply_body(reply_fields(b)) == Ok::<ReplyMessageBody, ProtocolError>(b),
{
    lemma_reply_fields_lookup(b);
}

/// Law: encoding a request body to wire fields and decoding them again
/// reproduces the same logical fields.
pub proof fn lemma_request_body_round_trip(b: RequestMessageBody)
    ensures
        spec_decode_request_body(request_fields(b)) == Ok::<RequestMessageBody, ProtocolError>(b),
{
    lemma_request_fields_lookup(b);
}

/// Law: a wire envelope laid out exactly as `encode_response` promises
/// decodes back to the reply envelope it came from.
pub proof fn lemma_response_round_trip(r: Response, w: WireEnvelope)
    requires
        w.src == r.src,
        w.dest == r.dest,
        w.body@ == reply_fields(r.body),
    ensures
        spec_decode_response(w) == Ok::<Response, ProtocolError>(r),
{
    lemma_reply_body_round_trip(r.body);
}

/// Law: a wire envelope laid out exactly as `encode_request` promises
/// decodes back to the request envelope it came from; a flood loses
/// neither its payload nor the absence of its correlation id.
pub proof fn lemma_request_round_trip(r: Request, w: WireEnvelope)
    requires
        w.id == r.id,
        w.src == r.src,
        w.dest == r.dest,
        w.body@ == request_fields(r.body),
    ensures
        spec_decode_request(w) == Ok::<Request, ProtocolError>(r),
{
    lemma_request_body_round_trip(r.body);
}

} // verus!
