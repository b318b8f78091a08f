//! Transport layer: the message-level blocking transport contract, the CRC
//! framing over raw byte links, an in-memory transport pair, and the USB
//! interface selection logic.

pub mod blocking_framed;
pub mod blocking_memory;
pub mod rusb;

pub use blocking_framed::BlockingFramedTransport;
pub use blocking_memory::BlockingMemoryTransport;

use crate::blocking_client::received_view;
use crate::error::{ErpcError, ErpcResult};
use std::time::Duration;
use vstd::prelude::*;

verus! {

/// Blocking transport for low-latency synchronous communication, carrying
/// whole messages.
///
/// `sent()` and `received()` are the messages this transport has delivered to
/// and taken from its peer; `open()` tells whether it is connected;
/// `timeout()` is the time an operation may take; `close_never_fails()` tells
/// that closing always succeeds; `receptions()` are the outcomes of the calls
/// of `receive`, in order.
pub trait BlockingTransport: Send + Sync {
    spec fn sent(&self) -> Seq<Seq<u8>>;

    spec fn received(&self) -> Seq<Seq<u8>>;

    spec fn open(&self) -> bool;

    spec fn timeout(&self) -> Duration;

    spec fn close_never_fails(&self) -> bool;

    spec fn receptions(&self) -> Seq<Result<Seq<u8>, ErpcError>>;

    /// Send data through the transport.
    fn send(&mut self, data: &[u8]) -> (r: ErpcResult<()>)
        ensures
            final(self).received() == old(self).received(),
            final(self).receptions() == old(self).receptions(),
            r is Ok ==> final(self).sent() == old(self).sent().push(data@),
    ;

    /// Receive one complete message.
    fn receive(&mut self) -> (r: ErpcResult<Vec<u8>>)
        ensures
            final(self).sent() == old(self).sent(),
            r matches Ok(v) ==> final(self).received() == old(self).received().push(v@),
            final(self).receptions() == old(self).receptions().push(received_view(r)),
    ;

    /// Close the transport.
    fn close(&mut self) -> (r: ErpcResult<()>)
        ensures
            final(self).sent() == old(self).sent(),
            final(self).received() == old(self).received(),
            final(self).receptions() == old(self).receptions(),
            r is Ok ==> !final(self).open(),
            old(self).close_never_fails() ==> r is Ok,
    ;

    /// Check if the transport is connected.
    fn is_connected(&self) -> (r: bool)
        ensures
            r == self.open(),
    ;

    /// Set the timeout for operations.
    fn set_timeout(&mut self, timeout: Duration)
        ensures
            final(self).timeout() == timeout,
            final(self).sent() == old(self).sent(),
            final(self).received() == old(self).received(),
            final(self).open() == old(self).open(),
            final(self).receptions() == old(self).receptions(),
    ;
}

} // verus!
