//! A verified blocking implementation of the eRPC remote procedure call protocol:
//! message codec, CRC-16 framing, an in-memory transport pair, a client manager,
//! a single-threaded server with method routing, and USB interface selection.

pub mod blocking_client;
pub mod codec;
pub mod crc16;
pub mod error;
pub mod server;
pub mod transport;

pub use blocking_client::BlockingClientManager;
pub use error::{CodecError, ErpcError, ErpcResult, RequestError, TransportError};
