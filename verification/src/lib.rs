//! One node of a gossip cluster that exchanges correlation-tagged envelopes.
//!
//! The library holds the protocol logic: the envelope model, the dispatcher
//! that classifies an inbound envelope and produces the outbound ones, the
//! append-only broadcast store with its deduplication invariant, and a codec
//! between envelopes and the wire-object shape that a JSON surface carries.
//! Reading and writing the actual byte streams is left to the embedding
//! program.

pub mod codec;
pub mod models;
pub mod node;
