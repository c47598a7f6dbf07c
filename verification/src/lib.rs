//! Verified core of a peer-to-peer media call node: the stream protocol,
//! the length-delimited frame format, the text form of endpoint addresses,
//! and the decisions taken by the node's stream tasks.

pub mod address;
pub mod audio;
pub mod framing;
pub mod protocol;
pub mod session;
pub mod video;
