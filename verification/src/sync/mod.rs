//! Other devices: which are allowed to connect, how they pair, and what they
//! see of a session.

pub mod clock;
pub mod device_laws;
pub mod endpoint;
pub mod identity;
pub mod pairing;
pub mod qr;
pub mod registry;
pub mod stream;
