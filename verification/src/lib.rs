//! Streaming of triples from a source to a sink, one triple at a time,
//! with errors that remember which of the two sides raised them.

pub mod from_graph;
pub mod graph;
pub mod laws;
pub mod streams;
pub mod triple;
