//! Server side of the eRPC protocol.

pub mod blocking;
