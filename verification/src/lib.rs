//! Client-side gRPC transport core.
//!
//! The crate turns a typed call into a conformant HTTP/2 request carrying
//! length-prefixed framed messages and interprets the framed response:
//! timeout-header handling, deadline intersection, request preparation,
//! response classification, framing, and the reconnect state machine.

pub mod client;
pub mod decoder;
pub mod duration;
pub mod endpoint;
pub mod framing;
pub mod headers;
pub mod layer;
pub mod reconnect;
pub mod status;
pub mod timeout;
