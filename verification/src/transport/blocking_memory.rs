//! Blocking in-memory transport pair for low-latency tests and local
//! communication. Each direction is a queue of byte chunks shared by the two
//! ends; receiving spins until enough bytes arrived or the timeout passed.

use crate::error::{ErpcError, ErpcResult, TransportError};
use crate::transport::BlockingFramedTransport;
use std::collections::VecDeque;
use std::sync::{Arc, Mutex};
use std::time::{Duration, Instant};
use vstd::prelude::*;

verus! {

broadcast use vstd::string::group_string_axioms;

/// Declaration of std's mutual-exclusion lock.
#[verifier::external_type_specification]
#[verifier::external_body]
#[verifier::reject_recursive_types(T)]
pub struct ExMutex<T: ?Sized>(Mutex<T>);

/// Declaration of std's monotonic clock reading.
#[verifier::external_type_specification]
#[verifier::external_body]
pub struct ExInstant(Instant);

/// A queue of byte chunks shared by the two ends of a link.
type SharedQueue = Arc<Mutex<VecDeque<Vec<u8>>>>;

/// Wrapper of `Mutex::new`: a lock around `queue`. Nothing is stated of the
/// result: the library sees no inside of a lock.
#[verifier::external_body]
fn new_mutex(queue: VecDeque<Vec<u8>>) -> Mutex<VecDeque<Vec<u8>>> {
    Mutex::new(queue)
}

/// Wrapper of `Arc::clone`: another handle to the same shared queue, so the
/// result equals `queue` (equality of `Arc`s is equality of what they point
/// to). What the queue holds is not stated: the library sees no inside of it.
#[verifier::external_body]
fn share(queue: &SharedQueue) -> (r: SharedQueue)
    ensures
        r == *queue,
{
    Arc::clone(queue)
}

/// Wrapper of `Mutex::lock` followed by `VecDeque::push_back` on the guarded
/// queue (the guard cannot be dereferenced in verified code, so the lock and
/// the queue operation stand together; the guard is dropped on return). `Err`
/// when the lock is poisoned. What the queue holds is not stated: the peer end
/// changes it from another thread.
#[verifier::external_body]
fn locked_push_back(queue: &SharedQueue, chunk: Vec<u8>) -> Result<(), ()> {
    match queue.lock() {
        Ok(mut guard) => {
            guard.push_back(chunk);
            Ok(())
        },
        Err(_) => Err(()),
    }
}

/// Wrapper of `Mutex::lock` followed by `VecDeque::push_front` on the guarded
/// queue, as for [`locked_push_back`]. `Err` when the lock is poisoned. What
/// the queue holds is not stated.
#[verifier::external_body]
fn locked_push_front(queue: &SharedQueue, chunk: Vec<u8>) -> Result<(), ()> {
    match queue.lock() {
        Ok(mut guard) => {
            guard.push_front(chunk);
            Ok(())
        },
        Err(_) => Err(()),
    }
}

/// Wrapper of `Mutex::lock` followed by `VecDeque::pop_front` on the guarded
/// queue, as for [`locked_push_back`]. `Err` when the lock is poisoned. Which
/// chunk comes out, if any, is not stated: the peer end fills the queue from
/// another thread.
#[verifier::external_body]
fn locked_pop_front(queue: &SharedQueue) -> Result<Option<Vec<u8>>, ()> {
    match queue.lock() {
        Ok(mut guard) => Ok(guard.pop_front()),
        Err(_) => Err(()),
    }
}

/// Wrapper of `Instant::now`; the result depends on the clock and is not stated.
#[verifier::external_body]
fn now() -> Instant {
    Instant::now()
}

/// Wrapper of `Instant::elapsed`; the result depends on the clock and is not
/// stated.
#[verifier::external_body]
fn elapsed(start: &Instant) -> Duration {
    start.elapsed()
}

/// Wrapper of `Duration`'s `>`: whether `a` is longer than `b`. The result is
/// not stated, as the library holds no model of `Duration`; it only decides
/// when a receive gives up.
#[verifier::external_body]
fn longer_than(a: &Duration, b: &Duration) -> bool {
    *a > *b
}

/// The duration of `ms` milliseconds, as `Duration::from_millis` makes it.
pub uninterp spec fn duration_of_millis(ms: u64) -> Duration;

/// Wrapper of `Duration::from_millis`: the duration of `ms` milliseconds,
/// which depends on `ms` alone. It never panics.
#[verifier::external_body]
fn millis(ms: u64) -> (r: Duration)
    ensures
        r == duration_of_millis(ms),
{
    Duration::from_millis(ms)
}

/// Wrapper of `std::hint::spin_loop`: a hint to the processor, with no result.
#[verifier::external_body]
fn spin() {
    std::hint::spin_loop()
}

/// Upper bound on the polling rounds of one receive, which gives the polling
/// loop its termination measure. Far beyond any timeout in practice; running
/// out of rounds is reported as a timeout.
pub const MAX_POLL_ROUNDS: u64 = 0xffff_ffff_ffff_ffff;

/// What an end did to its incoming queue: took a chunk from its front, or put
/// bytes back at its front.
pub enum QueueOp {
    Took(Seq<u8>),
    PutBack(Seq<u8>),
}

/// The bytes taken from the queue by `ops`, in order.
pub open spec fn taken(ops: Seq<QueueOp>) -> Seq<u8>
    decreases ops.len(),
{
    if ops.len() == 0 {
        Seq::empty()
    } else {
        taken(ops.drop_last()) + match ops.last() {
            QueueOp::Took(c) => c,
            QueueOp::PutBack(_) => Seq::empty(),
        }
    }
}

/// The bytes put back into the queue by `ops`, in order.
pub open spec fn put_back(ops: Seq<QueueOp>) -> Seq<u8>
    decreases ops.len(),
{
    if ops.len() == 0 {
        Seq::empty()
    } else {
        put_back(ops.drop_last()) + match ops.last() {
            QueueOp::Took(_) => Seq::empty(),
            QueueOp::PutBack(c) => c,
        }
    }
}

struct BlockingMemoryChannel {
    a_to_b: SharedQueue,
    b_to_a: SharedQueue,
}

impl BlockingMemoryChannel {
    fn create_pair() -> (r: (BlockingMemoryTransport, BlockingMemoryTransport))
        ensures
            r.0.link_open() && r.1.link_open(),
            r.0.sent_chunks() == Seq::<Seq<u8>>::empty(),
            r.0.received_chunks() == Seq::<Seq<u8>>::empty(),
            r.1.sent_chunks() == Seq::<Seq<u8>>::empty(),
            r.1.received_chunks() == Seq::<Seq<u8>>::empty(),
            r.0.queue_log() == Seq::<QueueOp>::empty(),
            r.1.queue_log() == Seq::<QueueOp>::empty(),
            r.0.link_timeout() == duration_of_millis(10),
            r.1.link_timeout() == duration_of_millis(10),
            r.0.outgoing() == r.1.incoming(),
            r.1.outgoing() == r.0.incoming(),
    {
        let channel = BlockingMemoryChannel {
            a_to_b: Arc::new(new_mutex(VecDeque::new())),
            b_to_a: Arc::new(new_mutex(VecDeque::new())),
        };

        let transport_a = BlockingMemoryTransport {
            send_queue: share(&channel.a_to_b),
            recv_queue: share(&channel.b_to_a),
            timeout: millis(10),
            connected: true,
            sent_log: Ghost(Seq::empty()),
            received_log: Ghost(Seq::empty()),
            queue_log: Ghost(Seq::empty()),
            last_error: Ghost(None),
            message_outcomes: Ghost(Seq::empty()),
        };

        let transport_b = BlockingMemoryTransport {
            send_queue: channel.b_to_a,
            recv_queue: channel.a_to_b,
            timeout: millis(10),
            connected: true,
            sent_log: Ghost(Seq::empty()),
            received_log: Ghost(Seq::empty()),
            queue_log: Ghost(Seq::empty()),
            last_error: Ghost(None),
            message_outcomes: Ghost(Seq::empty()),
        };

        (transport_a, transport_b)
    }
}

/// Blocking in-memory transport that spins while polling for incoming bytes.
pub struct BlockingMemoryTransport {
    send_queue: SharedQueue,
    recv_queue: SharedQueue,
    timeout: Duration,
    connected: bool,
    sent_log: Ghost<Seq<Seq<u8>>>,
    received_log: Ghost<Seq<Seq<u8>>>,
    queue_log: Ghost<Seq<QueueOp>>,
    last_error: Ghost<Option<ErpcError>>,
    message_outcomes: Ghost<Seq<Result<Seq<u8>, ErpcError>>>,
}

impl BlockingMemoryTransport {
    /// The queue this end sends into.
    pub closed spec fn outgoing(&self) -> Arc<Mutex<VecDeque<Vec<u8>>>> {
        self.send_queue
    }

    /// The queue this end receives from.
    pub closed spec fn incoming(&self) -> Arc<Mutex<VecDeque<Vec<u8>>>> {
        self.recv_queue
    }

    /// What this end has done to its incoming queue, in order.
    pub closed spec fn queue_log(&self) -> Seq<QueueOp> {
        self.queue_log@
    }

    /// Create paired blocking memory transports: what one sends, the other receives.
    pub fn new() -> (r: (Self, Self))
        ensures
            r.0.link_open() && r.1.link_open(),
            r.0.sent_chunks() == Seq::<Seq<u8>>::empty(),
            r.0.received_chunks() == Seq::<Seq<u8>>::empty(),
            r.1.sent_chunks() == Seq::<Seq<u8>>::empty(),
            r.1.received_chunks() == Seq::<Seq<u8>>::empty(),
            r.0.queue_log() == Seq::<QueueOp>::empty(),
            r.1.queue_log() == Seq::<QueueOp>::empty(),
            r.0.link_timeout() == duration_of_millis(10),
            r.1.link_timeout() == duration_of_millis(10),
            r.0.outgoing() == r.1.incoming(),
            r.1.outgoing() == r.0.incoming(),
    {
        BlockingMemoryChannel::create_pair()
    }

    /// Create paired blocking memory transports.
    pub fn pair() -> (r: (Self, Self))
        ensures
            r.0.link_open() && r.1.link_open(),
            r.0.sent_chunks() == Seq::<Seq<u8>>::empty(),
            r.0.received_chunks() == Seq::<Seq<u8>>::empty(),
            r.1.sent_chunks() == Seq::<Seq<u8>>::empty(),
            r.1.received_chunks() == Seq::<Seq<u8>>::empty(),
            r.0.queue_log() == Seq::<QueueOp>::empty(),
            r.1.queue_log() == Seq::<QueueOp>::empty(),
            r.0.link_timeout() == duration_of_millis(10),
            r.1.link_timeout() == duration_of_millis(10),
            r.0.outgoing() == r.1.incoming(),
            r.1.outgoing() == r.0.incoming(),
    {
        Self::new()
    }
}

impl BlockingFramedTransport for BlockingMemoryTransport {
    closed spec fn sent_chunks(&self) -> Seq<Seq<u8>> {
        self.sent_log@
    }

    closed spec fn received_chunks(&self) -> Seq<Seq<u8>> {
        self.received_log@
    }

    closed spec fn link_open(&self) -> bool {
        self.connected
    }

    closed spec fn link_timeout(&self) -> Duration {
        self.timeout
    }

    closed spec fn last_error(&self) -> Option<ErpcError> {
        self.last_error@
    }

    /// Closing an in-memory end never fails.
    open spec fn link_close_never_fails(&self) -> bool {
        true
    }

    closed spec fn message_outcomes(&self) -> Seq<Result<Seq<u8>, ErpcError>> {
        self.message_outcomes@
    }

    fn record_reception(&mut self, outcome: Ghost<Result<Seq<u8>, ErpcError>>) {
        proof {
            self.message_outcomes@ = self.message_outcomes@.push(outcome@);
        }
    }

    /// Appends `data` as one chunk to the outgoing queue.
    fn base_send(&mut self, data: &[u8]) -> (r: ErpcResult<()>)
        ensures
            !old(self).link_open() ==> r == Err::<(), ErpcError>(
                ErpcError::Transport(TransportError::Closed),
            ),
    {
        if !self.connected {
            let e = ErpcError::Transport(TransportError::Closed);
            self.last_error = Ghost(Some(e));
            return Err(e);
        }
        match locked_push_back(&self.send_queue, crate::codec::copy_bytes(data)) {
            Ok(()) => {},
            Err(()) => {
                let e = ErpcError::Transport(
                    TransportError::SendFailed("memory queue lock poisoned".to_string()),
                );
                self.last_error = Ghost(Some(e));
                return Err(e);
            },
        }
        proof {
            self.sent_log@ = self.sent_log@.push(data@);
        }
        Ok(())
    }

    /// Takes chunks from the incoming queue until `length` bytes arrived, and
    /// puts what exceeds `length` back at the front of the queue. A zero length
    /// gives an empty message at once, without touching the queue.
    fn base_receive(&mut self, length: usize) -> (r: ErpcResult<Vec<u8>>)
        ensures
            !old(self).link_open() ==> r == Err::<Vec<u8>, ErpcError>(
                ErpcError::Transport(TransportError::Closed),
            ) && final(self).queue_log() == old(self).queue_log(),
            old(self).link_open() && length == 0 ==> (r matches Ok(v) && v@ == Seq::<u8>::empty())
                && final(self).queue_log() == old(self).queue_log(),
            final(self).queue_log().len() >= old(self).queue_log().len(),
            final(self).queue_log().take(old(self).queue_log().len() as int) == old(self).queue_log(),
            r matches Ok(v) ==> ({
                let ops = final(self).queue_log().skip(old(self).queue_log().len() as int);
                &&& v@.len() == length
                &&& taken(ops) == v@ + put_back(ops)
                &&& forall|i: int| 0 <= i < ops.len() - 1 ==> #[trigger] ops[i] is Took
            }),
            r matches Err(e) ==> (old(self).link_open() ==> {
                ||| e == ErpcError::Transport(TransportError::Timeout)
                ||| e matches ErpcError::Transport(TransportError::ReceiveFailed(_))
            }),
    {
        if !self.connected {
            let e = ErpcError::Transport(TransportError::Closed);
            self.last_error = Ghost(Some(e));
            return Err(e);
        }

        let start = now();
        let mut buffer: Vec<u8> = Vec::with_capacity(length);
        let mut rounds_left: u64 = MAX_POLL_ROUNDS;
        let ghost base = self.queue_log@.len() as int;
        proof {
            assert(self.queue_log@.take(base) =~= old(self).queue_log@);
            assert(self.queue_log@.skip(base) =~= Seq::<QueueOp>::empty());
        }

        while buffer.len() < length
            invariant
                self.connected,
                self.connected == old(self).connected,
                self.timeout == old(self).timeout,
                length == 0 ==> self.queue_log@ == old(self).queue_log@ && buffer@.len() == 0,
                self.sent_log == old(self).sent_log,
                self.received_log == old(self).received_log,
                self.message_outcomes == old(self).message_outcomes,
                self.queue_log@.len() >= base,
                base == old(self).queue_log@.len(),
                self.queue_log@.take(base) == old(self).queue_log@,
                taken(self.queue_log@.skip(base)) == buffer@,
                put_back(self.queue_log@.skip(base)) == Seq::<u8>::empty(),
                forall|i: int|
                    0 <= i < self.queue_log@.skip(base).len() ==> #[trigger] self.queue_log@.skip(
                        base,
                    )[i] is Took,
            ensures
                buffer@.len() >= length,
            decreases rounds_left,
        {
            match locked_pop_front(&self.recv_queue) {
                Ok(Some(data)) => {
                    let ghost ops = self.queue_log@.skip(base);
                    buffer.extend_from_slice(data.as_slice());
                    proof {
                        self.queue_log@ = self.queue_log@.push(QueueOp::Took(data@));
                        let new_ops = self.queue_log@.skip(base);
                        assert(new_ops =~= ops.push(QueueOp::Took(data@)));
                        assert(new_ops.drop_last() =~= ops);
                        assert(self.queue_log@.take(base) =~= old(self).queue_log@);
                        assert(buffer@ =~= taken(ops) + data@);
                    }
                },
                Ok(None) => {},
                Err(()) => {
                    let e = ErpcError::Transport(
                        TransportError::ReceiveFailed("memory queue lock poisoned".to_string()),
                    );
                    self.last_error = Ghost(Some(e));
                    return Err(e);
                },
            }

            if buffer.len() >= length {
                break;
            }

            if rounds_left == 0 || longer_than(&elapsed(&start), &self.timeout) {
                let e = ErpcError::Transport(TransportError::Timeout);
                self.last_error = Ghost(Some(e));
                return Err(e);
            }
            rounds_left = rounds_left - 1;

            spin();
        }

        if buffer.len() > length {
            let ghost all = buffer@;
            let ghost ops = self.queue_log@.skip(base);
            let excess = buffer.split_off(length);
            let ghost back = excess@;
            match locked_push_front(&self.recv_queue, excess) {
                Ok(()) => {},
                Err(()) => {
                    let e = ErpcError::Transport(
                        TransportError::ReceiveFailed("memory queue lock poisoned".to_string()),
                    );
                    self.last_error = Ghost(Some(e));
                    return Err(e);
                },
            }
            proof {
                self.queue_log@ = self.queue_log@.push(QueueOp::PutBack(back));
                let new_ops = self.queue_log@.skip(base);
                assert(new_ops =~= ops.push(QueueOp::PutBack(back)));
                assert(new_ops.drop_last() =~= ops);
                assert(self.queue_log@.take(base) =~= old(self).queue_log@);
                assert(all =~= buffer@ + back);
                assert(put_back(new_ops) =~= back);
            }
        }

        proof {
            self.received_log@ = self.received_log@.push(buffer@);
        }
        Ok(buffer)
    }

    fn is_connected(&self) -> (r: bool) {
        self.connected
    }

    /// Marks the transport closed; always succeeds.
    fn close(&mut self) -> (r: ErpcResult<()>)
        ensures
            r is Ok,
    {
        self.connected = false;
        Ok(())
    }

    fn set_timeout(&mut self, timeout: Duration) {
        self.timeout = timeout;
    }
}

} // verus!
