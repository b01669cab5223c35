//! The control socket: frames, JSON-RPC requests and responses, and what each
//! request does to a session.

pub mod answers;
pub mod codec;
pub mod devices;
pub mod framing;
pub mod handlers;
pub mod json;
pub mod laws;
pub mod methods;
pub mod opening_laws;
pub mod protocol;
pub mod request_laws;
pub mod server;
pub mod streaming_laws;
pub mod telling_laws;
