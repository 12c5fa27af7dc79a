//! Envelope model: the in-memory shape of inbound requests, outbound
//! replies and the errors the protocol logic reports.

use vstd::prelude::*;

verus! {

/// Body of an inbound request envelope.
///
/// `msg_type` is the message-type tag. Every other field is optional on the
/// wire; which ones must be present depends on the tag and is checked by the
/// dispatcher. The topology is kept as an ordered list of
/// `(node identifier, neighbour list)` entries.
#[derive(Debug)]
pub struct RequestMessageBody {
    pub node_id: Option<String>,
    pub msg_type: String,
    pub node_ids: Option<Vec<String>>,
    pub msg_id: Option<usize>,
    pub echo: Option<String>,
    pub topology: Option<Vec<(String, Vec<String>)>>,
    pub message: Option<i32>,
}

/// Body of an outbound reply envelope. Fields that are `None` are omitted
/// from the serialized body entirely.
#[derive(Debug)]
pub struct ReplyMessageBody {
    pub node_id: Option<String>,
    pub msg_id: Option<usize>,
    pub msg_type: String,
    pub in_reply_to: Option<usize>,
    pub echo: Option<String>,
    pub messages: Option<Vec<i32>>,
}

/// A request envelope: either an inbound message from the harness or a
/// peer, or an outbound flood sent to a neighbour.
#[derive(Debug)]
pub struct Request {
    pub id: Option<usize>,
    pub src: String,
    pub dest: String,
    pub body: RequestMessageBody,
}

/// A reply envelope, always correlated to an inbound request.
#[derive(Debug)]
pub struct Response {
    pub src: String,
    pub dest: String,
    pub body: ReplyMessageBody,
}

/// Everything that can go wrong while decoding or dispatching an envelope.
/// The node reports these to its caller instead of aborting.
#[derive(Clone, Copy, Debug, PartialEq, Eq, Structural)]
pub enum ProtocolError {
    /// The message-type tag matches no known request.
    UnknownMessageType,
    /// An `init` request without a `node_id` field.
    MissingNodeId,
    /// A `topology` request without a `topology` mapping.
    MissingTopology,
    /// A `topology` mapping with no entry for this node's own identifier.
    TopologyWithoutSelf,
    /// A `broadcast` request without a `message` value.
    MissingMessage,
    /// A wire body without a message-type field.
    MissingMessageType,
    /// A wire field whose value has the wrong shape for its key.
    MalformedField,
}

} // verus!
