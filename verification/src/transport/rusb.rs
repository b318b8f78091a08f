//! USB transport logic: choosing the vendor-specific interface and its bulk
//! endpoints, sizing IN requests, and buffering received packets. The device
//! I/O itself runs outside this library.

use crate::error::{ErpcError, TransportError};
use vstd::prelude::*;

verus! {

/// Largest chunk handed to the OUT endpoint at once, and the least IN request.
pub const MAX_CHUNK_SIZE: usize = 512;

/// USB interface class of vendor-specific interfaces.
pub const VENDOR_SPECIFIC_CLASS: u8 = 0xff;

/// Direction of a USB endpoint.
#[derive(Debug, Clone, Copy, PartialEq, Eq, Structural)]
pub enum Direction {
    /// Host to device.
    Out,
    /// Device to host.
    In,
}

/// Transfer type of a USB endpoint.
#[derive(Debug, Clone, Copy, PartialEq, Eq, Structural)]
pub enum TransferType {
    Control,
    Isochronous,
    Bulk,
    Interrupt,
}

/// Address, direction and transfer type of an endpoint.
#[derive(Debug, Clone, Copy, PartialEq, Eq, Structural)]
pub struct EndpointAddress {
    pub address: u8,
    pub direction: Direction,
    pub transfer_type: TransferType,
}

impl EndpointAddress {
    /// A bulk IN endpoint.
    pub fn bulk_in(address: u8) -> (r: Self)
        ensures
            r == (EndpointAddress {
                address,
                direction: Direction::In,
                transfer_type: TransferType::Bulk,
            }),
    {
        EndpointAddress { address, direction: Direction::In, transfer_type: TransferType::Bulk }
    }

    /// A bulk OUT endpoint.
    pub fn bulk_out(address: u8) -> (r: Self)
        ensures
            r == (EndpointAddress {
                address,
                direction: Direction::Out,
                transfer_type: TransferType::Bulk,
            }),
    {
        EndpointAddress { address, direction: Direction::Out, transfer_type: TransferType::Bulk }
    }
}

/// An interface alternate setting of the device, with its endpoints.
#[derive(Debug, Clone, PartialEq, Eq)]
pub struct InterfaceCandidate {
    pub interface_number: u8,
    pub alternate_setting: u8,
    pub class_code: u8,
    pub endpoints: Vec<EndpointAddress>,
}

/// The interface chosen for the transport and its bulk endpoint addresses.
#[derive(Debug, Clone, Copy, PartialEq, Eq, Structural)]
pub struct SelectedInterface {
    pub interface_number: u8,
    pub alternate_setting: u8,
    pub endpoint_in: u8,
    pub endpoint_out: u8,
}

/// Why no interface could be chosen.
#[derive(Debug, Clone, Copy, PartialEq, Eq, Structural)]
pub enum SelectionError {
    VendorInterfaceNotFound,
    MissingBulkPair,
}

impl SelectionError {
    /// Human-readable description.
    pub fn message(&self) -> (r: &'static str)
        ensures
            *self == SelectionError::VendorInterfaceNotFound ==> r@ == "Vendor interface not found"@,
            *self == SelectionError::MissingBulkPair ==> r@
                == "Missing bulk IN/OUT endpoints for vendor interface"@,
    {
        match self {
            SelectionError::VendorInterfaceNotFound => "Vendor interface not found",
            SelectionError::MissingBulkPair => "Missing bulk IN/OUT endpoints for vendor interface",
        }
    }
}

/// `e` is a bulk endpoint of direction `dir`.
pub open spec fn is_bulk(e: EndpointAddress, dir: Direction) -> bool {
    e.transfer_type == TransferType::Bulk && e.direction == dir
}

/// Address of the first bulk endpoint of direction `dir` in `endpoints`.
pub open spec fn first_bulk(endpoints: Seq<EndpointAddress>, dir: Direction) -> Option<u8>
    decreases endpoints.len(),
{
    if endpoints.len() == 0 {
        None
    } else if is_bulk(endpoints[0], dir) {
        Some(endpoints[0].address)
    } else {
        first_bulk(endpoints.drop_first(), dir)
    }
}

/// `c` is a vendor-specific interface with a bulk IN and a bulk OUT endpoint.
pub open spec fn usable(c: InterfaceCandidate) -> bool {
    &&& c.class_code == VENDOR_SPECIFIC_CLASS
    &&& first_bulk(c.endpoints@, Direction::In) is Some
    &&& first_bulk(c.endpoints@, Direction::Out) is Some
}

/// The selection made from the usable interface `c`.
pub open spec fn selection_of(c: InterfaceCandidate) -> SelectedInterface {
    SelectedInterface {
        interface_number: c.interface_number,
        alternate_setting: c.alternate_setting,
        endpoint_in: first_bulk(c.endpoints@, Direction::In)->Some_0,
        endpoint_out: first_bulk(c.endpoints@, Direction::Out)->Some_0,
    }
}

proof fn lemma_first_bulk(endpoints: Seq<EndpointAddress>, dir: Direction)
    ensures
        first_bulk(endpoints, dir) is Some <==> exists|i: int|
            0 <= i < endpoints.len() && (#[trigger] endpoints[i]).transfer_type == TransferType::Bulk
                && endpoints[i].direction == dir,
        first_bulk(endpoints, dir) matches Some(a) ==> exists|i: int|
            0 <= i < endpoints.len() && (#[trigger] endpoints[i]).transfer_type == TransferType::Bulk
                && endpoints[i].direction == dir && endpoints[i].address == a && forall|j: int|
                0 <= j < i ==> !((#[trigger] endpoints[j]).transfer_type == TransferType::Bulk
                && endpoints[j].direction == dir),
    decreases endpoints.len(),
{
    if endpoints.len() > 0 {
        let rest = endpoints.drop_first();
        lemma_first_bulk(rest, dir);
        if !is_bulk(endpoints[0], dir) {
            if exists|i: int|
                0 <= i < endpoints.len() && (#[trigger] endpoints[i]).transfer_type
                    == TransferType::Bulk && endpoints[i].direction == dir {
                let i = choose|i: int|
                    0 <= i < endpoints.len() && (#[trigger] endpoints[i]).transfer_type
                        == TransferType::Bulk && endpoints[i].direction == dir;
                assert(rest[i - 1] == endpoints[i]);
            }
            if first_bulk(rest, dir) is Some {
                let i = choose|i: int|
                    0 <= i < rest.len() && (#[trigger] rest[i]).transfer_type == TransferType::Bulk
                        && rest[i].direction == dir && rest[i].address == first_bulk(rest, dir)->Some_0
                        && forall|j: int|
                        0 <= j < i ==> !((#[trigger] rest[j]).transfer_type == TransferType::Bulk
                        && rest[j].direction == dir);
                assert(endpoints[i + 1] == rest[i]);
                assert forall|j: int| 0 <= j < i + 1 implies !((#[trigger] endpoints[j]).transfer_type
                    == TransferType::Bulk && endpoints[j].direction == dir) by {
                    if j > 0 {
                        assert(endpoints[j] == rest[j - 1]);
                    }
                }
            }
        }
    }
}

/// An interface can be used exactly when it is vendor-specific and has a bulk
/// IN endpoint and a bulk OUT endpoint, whatever its number; its selection
/// keeps its number and alternate setting and takes the first bulk IN and the
/// first bulk OUT endpoint.
pub proof fn law_usable_interface(c: InterfaceCandidate)
    ensures
        usable(c) <==> {
            &&& c.class_code == 0xffu8
            &&& exists|i: int|
                0 <= i < c.endpoints@.len() && (#[trigger] c.endpoints@[i]).transfer_type
                    == TransferType::Bulk && c.endpoints@[i].direction == Direction::In
            &&& exists|i: int|
                0 <= i < c.endpoints@.len() && (#[trigger] c.endpoints@[i]).transfer_type
                    == TransferType::Bulk && c.endpoints@[i].direction == Direction::Out
        },
        usable(c) ==> {
            let s = selection_of(c);
            &&& s.interface_number == c.interface_number
            &&& s.alternate_setting == c.alternate_setting
            &&& exists|i: int|
                0 <= i < c.endpoints@.len() && (#[trigger] c.endpoints@[i]).transfer_type
                    == TransferType::Bulk && c.endpoints@[i].direction == Direction::In
                    && c.endpoints@[i].address == s.endpoint_in && forall|j: int|
                    0 <= j < i ==> !((#[trigger] c.endpoints@[j]).transfer_type
                    == TransferType::Bulk && c.endpoints@[j].direction == Direction::In)
            &&& exists|i: int|
                0 <= i < c.endpoints@.len() && (#[trigger] c.endpoints@[i]).transfer_type
                    == TransferType::Bulk && c.endpoints@[i].direction == Direction::Out
                    && c.endpoints@[i].address == s.endpoint_out && forall|j: int|
                    0 <= j < i ==> !((#[trigger] c.endpoints@[j]).transfer_type
                    == TransferType::Bulk && c.endpoints@[j].direction == Direction::Out)
        },
{
    lemma_first_bulk(c.endpoints@, Direction::In);
    lemma_first_bulk(c.endpoints@, Direction::Out);
}

/// A list of interfaces whose first usable one is at `i` selects that one.
pub proof fn law_first_usable_chosen(candidates: Seq<InterfaceCandidate>, i: int)
    requires
        0 <= i < candidates.len(),
        usable(candidates[i]),
        forall|j: int| 0 <= j < i ==> !usable(#[trigger] candidates[j]),
    ensures
        chosen(candidates) == Some(selection_of(candidates[i])),
{
    lemma_chosen_first(candidates, i);
}

/// The interface chosen from `candidates`: the selection of the first usable
/// one, if any.
pub open spec fn chosen(candidates: Seq<InterfaceCandidate>) -> Option<SelectedInterface>
    decreases candidates.len(),
{
    if candidates.len() == 0 {
        None
    } else if usable(candidates[0]) {
        Some(selection_of(candidates[0]))
    } else {
        chosen(candidates.drop_first())
    }
}

proof fn lemma_chosen_first(candidates: Seq<InterfaceCandidate>, i: int)
    requires
        0 <= i < candidates.len(),
        usable(candidates[i]),
        forall|j: int| 0 <= j < i ==> !usable(#[trigger] candidates[j]),
    ensures
        chosen(candidates) == Some(selection_of(candidates[i])),
    decreases i,
{
    if i > 0 {
        let rest = candidates.drop_first();
        assert forall|j: int| 0 <= j < i - 1 implies !usable(#[trigger] rest[j]) by {
            assert(rest[j] == candidates[j + 1]);
        }
        assert(!usable(candidates[0]));
        lemma_chosen_first(rest, i - 1);
    }
}

proof fn lemma_chosen_none(candidates: Seq<InterfaceCandidate>)
    requires
        forall|j: int| 0 <= j < candidates.len() ==> !usable(#[trigger] candidates[j]),
    ensures
        chosen(candidates) is None,
    decreases candidates.len(),
{
    if candidates.len() > 0 {
        let rest = candidates.drop_first();
        assert forall|j: int| 0 <= j < rest.len() implies !usable(#[trigger] rest[j]) by {
            assert(rest[j] == candidates[j + 1]);
        }
        assert(!usable(candidates[0]));
        lemma_chosen_none(rest);
    }
}

/// Interfaces that cannot be used, placed before others, do not change which
/// interface is chosen.
pub proof fn law_unusable_prefix(prefix: Seq<InterfaceCandidate>, rest: Seq<InterfaceCandidate>)
    requires
        forall|j: int| 0 <= j < prefix.len() ==> !usable(#[trigger] prefix[j]),
    ensures
        chosen(prefix + rest) == chosen(rest),
    decreases prefix.len(),
{
    if prefix.len() > 0 {
        let tail = prefix.drop_first();
        assert forall|j: int| 0 <= j < tail.len() implies !usable(#[trigger] tail[j]) by {
            assert(tail[j] == prefix[j + 1]);
        }
        assert((prefix + rest)[0] == prefix[0]);
        assert((prefix + rest).drop_first() =~= tail + rest);
        law_unusable_prefix(tail, rest);
    } else {
        assert(prefix + rest =~= rest);
    }
}

/// Interfaces that cannot be used, inserted anywhere, do not change which
/// interface is chosen; in particular, non-vendor interfaces are ignored.
pub proof fn law_unusable_inserted(
    front: Seq<InterfaceCandidate>,
    inserted: Seq<InterfaceCandidate>,
    back: Seq<InterfaceCandidate>,
)
    requires
        forall|j: int| 0 <= j < inserted.len() ==> !usable(#[trigger] inserted[j]),
    ensures
        chosen(front + inserted + back) == chosen(front + back),
    decreases front.len(),
{
    if front.len() == 0 {
        assert(front + inserted + back =~= inserted + back);
        assert(front + back =~= back);
        law_unusable_prefix(inserted, back);
    } else {
        let tail = front.drop_first();
        assert((front + inserted + back)[0] == front[0]);
        assert((front + back)[0] == front[0]);
        assert((front + inserted + back).drop_first() =~= tail + inserted + back);
        assert((front + back).drop_first() =~= tail + back);
        law_unusable_inserted(tail, inserted, back);
    }
}

/// Non-vendor interfaces, inserted anywhere, do not change which interface is
/// chosen.
pub proof fn law_non_vendor_ignored(
    front: Seq<InterfaceCandidate>,
    inserted: Seq<InterfaceCandidate>,
    back: Seq<InterfaceCandidate>,
)
    requires
        forall|j: int|
            0 <= j < inserted.len() ==> (#[trigger] inserted[j]).class_code
                != VENDOR_SPECIFIC_CLASS,
    ensures
        chosen(front + inserted + back) == chosen(front + back),
{
    assert forall|j: int| 0 <= j < inserted.len() implies !usable(#[trigger] inserted[j]) by {
        assert(inserted[j].class_code != VENDOR_SPECIFIC_CLASS);
    }
    law_unusable_inserted(front, inserted, back);
}

/// Once an interface is chosen, interfaces appended after the candidates do
/// not change the choice.
pub proof fn law_choice_kept_when_extended(
    candidates: Seq<InterfaceCandidate>,
    more: Seq<InterfaceCandidate>,
)
    requires
        chosen(candidates) is Some,
    ensures
        chosen(candidates + more) == chosen(candidates),
    decreases candidates.len(),
{
    let all = candidates + more;
    assert(all[0] == candidates[0]);
    if !usable(candidates[0]) {
        assert(all.drop_first() =~= candidates.drop_first() + more);
        law_choice_kept_when_extended(candidates.drop_first(), more);
    }
}

fn is_bulk_of(e: &EndpointAddress, dir: Direction) -> (r: bool)
    ensures
        r == is_bulk(*e, dir),
{
    let bulk = match e.transfer_type {
        TransferType::Bulk => true,
        _ => false,
    };
    let same = match (e.direction, dir) {
        (Direction::In, Direction::In) => true,
        (Direction::Out, Direction::Out) => true,
        _ => false,
    };
    bulk && same
}

fn find_bulk(endpoints: &Vec<EndpointAddress>, dir: Direction) -> (r: Option<u8>)
    ensures
        r == first_bulk(endpoints@, dir),
{
    let mut i: usize = 0;
    proof {
        assert(endpoints@.skip(0) =~= endpoints@);
    }
    while i < endpoints.len()
        invariant
            i <= endpoints@.len(),
            first_bulk(endpoints@, dir) == first_bulk(endpoints@.skip(i as int), dir),
        decreases endpoints.len() - i,
    {
        let ghost rest = endpoints@.skip(i as int);
        proof {
            assert(rest[0] == endpoints@[i as int]);
            assert(rest.drop_first() =~= endpoints@.skip(i + 1));
        }
        if is_bulk_of(&endpoints[i], dir) {
            return Some(endpoints[i].address);
        }
        i = i + 1;
    }
    None
}

/// Chooses the first vendor-specific interface that has both a bulk IN and a
/// bulk OUT endpoint, with the first endpoint of each kind.
pub fn select_interface_and_endpoints(candidates: &[InterfaceCandidate]) -> (r: Result<
    SelectedInterface,
    SelectionError,
>)
    ensures
        match chosen(candidates@) {
            Some(s) => r == Ok::<SelectedInterface, SelectionError>(s),
            None => r is Err,
        },
        (exists|i: int| 0 <= i < candidates@.len() && usable(#[trigger] candidates@[i])) ==> (r
            matches Ok(s) && exists|i: int|
            0 <= i < candidates@.len() && usable(#[trigger] candidates@[i]) && (forall|j: int|
                0 <= j < i ==> !usable(#[trigger] candidates@[j])) && s == selection_of(
                candidates@[i],
            )),
        !(exists|i: int| 0 <= i < candidates@.len() && usable(#[trigger] candidates@[i])) && (
        exists|i: int|
            0 <= i < candidates@.len() && (#[trigger] candidates@[i]).class_code
                == VENDOR_SPECIFIC_CLASS) ==> r == Err::<SelectedInterface, SelectionError>(
            SelectionError::MissingBulkPair,
        ),
        !(exists|i: int|
            0 <= i < candidates@.len() && (#[trigger] candidates@[i]).class_code
                == VENDOR_SPECIFIC_CLASS) ==> r == Err::<SelectedInterface, SelectionError>(
            SelectionError::VendorInterfaceNotFound,
        ),
{
    let mut saw_vendor_interface = false;
    let mut i: usize = 0;
    while i < candidates.len()
        invariant
            i <= candidates@.len(),
            forall|j: int| 0 <= j < i ==> !usable(#[trigger] candidates@[j]),
            saw_vendor_interface <==> exists|j: int|
                0 <= j < i && (#[trigger] candidates@[j]).class_code == VENDOR_SPECIFIC_CLASS,
        decreases candidates.len() - i,
    {
        let candidate = &candidates[i];
        if candidate.class_code != VENDOR_SPECIFIC_CLASS {
            i = i + 1;
            continue;
        }

        saw_vendor_interface = true;

        let endpoint_in = find_bulk(&candidate.endpoints, Direction::In);
        let endpoint_out = find_bulk(&candidate.endpoints, Direction::Out);

        match (endpoint_in, endpoint_out) {
            (Some(endpoint_in), Some(endpoint_out)) => {
                let selected = SelectedInterface {
                    interface_number: candidate.interface_number,
                    alternate_setting: candidate.alternate_setting,
                    endpoint_in,
                    endpoint_out,
                };
                proof {
                    assert(usable(candidates@[i as int]));
                    assert(selected == selection_of(candidates@[i as int]));
                    lemma_chosen_first(candidates@, i as int);
                }
                return Ok(selected);
            },
            _ => {},
        }
        i = i + 1;
    }

    proof {
        lemma_chosen_none(candidates@);
    }
    if saw_vendor_interface {
        Err(SelectionError::MissingBulkPair)
    } else {
        Err(SelectionError::VendorInterfaceNotFound)
    }
}

/// Length of the IN request made when `min_len` more bytes are wanted: the
/// largest of `min_len`, [`MAX_CHUNK_SIZE`] and the packet size, rounded up to
/// a multiple of the packet size (taken as 1 when it is 0).
pub open spec fn request_len_for(in_packet_size: usize, min_len: usize) -> int {
    let p: int = if in_packet_size == 0 {
        1
    } else {
        in_packet_size as int
    };
    let t0: int = if min_len > MAX_CHUNK_SIZE {
        min_len as int
    } else {
        MAX_CHUNK_SIZE as int
    };
    let t: int = if t0 > p {
        t0
    } else {
        p
    };
    ((t + p - 1) / p) * p
}

/// Rounds an IN request up to whole packets; see [`request_len_for`]. `None`
/// when the rounded length does not fit in `usize`.
pub fn checked_request_len(in_packet_size: usize, min_len: usize) -> (r: Option<usize>)
    ensures
        request_len_for(in_packet_size, min_len) <= usize::MAX ==> r == Some(
            request_len_for(in_packet_size, min_len) as usize,
        ),
        request_len_for(in_packet_size, min_len) > usize::MAX ==> r is None,
{
    let packet_size: usize = if in_packet_size == 0 {
        1
    } else {
        in_packet_size
    };
    let target0: usize = if min_len > MAX_CHUNK_SIZE {
        min_len
    } else {
        MAX_CHUNK_SIZE
    };
    let target: usize = if target0 > packet_size {
        target0
    } else {
        packet_size
    };
    let q = target / packet_size;
    proof {
        lemma_ceil_div(target as int, packet_size as int);
    }
    let blocks = if target % packet_size != 0 {
        match q.checked_add(1) {
            Some(b) => b,
            None => {
                proof {
                    let c = (target as int + packet_size as int - 1) / packet_size as int;
                    assert(c * packet_size >= c) by (nonlinear_arith)
                        requires
                            packet_size >= 1,
                            c >= 0,
                    ;
                }
                return None;
            },
        }
    } else {
        q
    };
    blocks.checked_mul(packet_size)
}

/// Rounds an IN request up to whole packets; see [`request_len_for`].
pub fn round_in_request_len(in_packet_size: usize, min_len: usize) -> (r: usize)
    requires
        request_len_for(in_packet_size, min_len) <= usize::MAX,
    ensures
        r == request_len_for(in_packet_size, min_len),
{
    match checked_request_len(in_packet_size, min_len) {
        Some(n) => n,
        None => 0,
    }
}

/// An IN request covers the bytes still wanted, at least a full chunk and a
/// full packet, consists of whole packets, and is less than one packet longer
/// than the largest of these.
pub proof fn law_request_len_whole_packets(in_packet_size: usize, min_len: usize)
    ensures
        ({
            let r = request_len_for(in_packet_size, min_len);
            let p: int = if in_packet_size == 0 {
                1
            } else {
                in_packet_size as int
            };
            let t: int = vstd::math::max(vstd::math::max(min_len as int, MAX_CHUNK_SIZE as int), p);
            &&& r >= min_len
            &&& r >= MAX_CHUNK_SIZE
            &&& r >= p
            &&& r % p == 0
            &&& r < t + p
        }),
{
    let p: int = if in_packet_size == 0 {
        1
    } else {
        in_packet_size as int
    };
    let t: int = vstd::math::max(vstd::math::max(min_len as int, MAX_CHUNK_SIZE as int), p);
    lemma_ceil_div(t, p);
    vstd::arithmetic::div_mod::lemma_fundamental_div_mod(t, p);
    let q = t / p;
    let rem = t % p;
    let c = (t + p - 1) / p;
    let r = c * p;
    assert(r == request_len_for(in_packet_size, min_len));
    if rem != 0 {
        assert(r == p * q + p) by (nonlinear_arith)
            requires
                r == c * p,
                c == q + 1,
        ;
    } else {
        assert(r == p * q) by (nonlinear_arith)
            requires
                r == c * p,
                c == q,
        ;
    }
    vstd::arithmetic::div_mod::lemma_mod_multiples_basic(c, p);
}

proof fn lemma_ceil_div(t: int, p: int)
    requires
        t >= 0,
        p > 0,
    ensures
        (t + p - 1) / p == t / p + (if t % p != 0 {
            1int
        } else {
            0int
        }),
{
    vstd::arithmetic::div_mod::lemma_fundamental_div_mod(t, p);
    vstd::arithmetic::div_mod::lemma_fundamental_div_mod(t + p - 1, p);
    let q = t / p;
    let r = t % p;
    if r != 0 {
        assert(t + p - 1 == (q + 1) * p + (r - 1)) by (nonlinear_arith)
            requires
                t == p * q + r,
        ;
        vstd::arithmetic::div_mod::lemma_fundamental_div_mod_converse(t + p - 1, p, q + 1, r - 1);
    } else {
        assert(t + p - 1 == q * p + (p - 1)) by (nonlinear_arith)
            requires
                t == p * q + r,
                r == 0,
        ;
        vstd::arithmetic::div_mod::lemma_fundamental_div_mod_converse(t + p - 1, p, q, p - 1);
    }
}

/// What to do after a completed IN transfer was absorbed.
#[derive(Debug, Clone, Copy, PartialEq, Eq, Structural)]
pub enum ReadStep {
    /// Request more data if the buffer still holds too little.
    Continue,
    /// Stop requesting and hand out what the buffer holds.
    Finished,
    /// The transfer failed with nothing buffered: report its error.
    Failed,
}

/// Bytes received from the IN endpoint and not yet handed out.
pub struct UsbReadBuffer {
    data: Vec<u8>,
    in_packet_size: usize,
}

impl UsbReadBuffer {
    /// Buffered bytes, oldest first.
    pub closed spec fn pending(&self) -> Seq<u8> {
        self.data@
    }

    /// Maximum packet size of the IN endpoint.
    pub closed spec fn packet_size(&self) -> usize {
        self.in_packet_size
    }

    /// An empty buffer for an IN endpoint with the given maximum packet size.
    pub fn new(in_packet_size: usize) -> (r: Self)
        ensures
            r.pending() == Seq::<u8>::empty(),
            r.packet_size() == in_packet_size,
    {
        UsbReadBuffer { data: Vec::new(), in_packet_size }
    }

    /// Number of buffered bytes.
    pub fn len(&self) -> (r: usize)
        ensures
            r == self.pending().len(),
    {
        self.data.len()
    }

    /// Length of the next IN request when `length` bytes are wanted; `None`
    /// when that length does not fit in `usize`.
    pub fn try_request_len(&self, length: usize) -> (r: Option<usize>)
        requires
            self.pending().len() < length,
        ensures
            ({
                let want = request_len_for(
                    self.packet_size(),
                    (length - self.pending().len()) as usize,
                );
                &&& want <= usize::MAX ==> r == Some(want as usize)
                &&& want > usize::MAX ==> r is None
            }),
    {
        checked_request_len(self.in_packet_size, length - self.data.len())
    }

    /// Whether fewer than `length` bytes are buffered.
    pub fn needs_more(&self, length: usize) -> (r: bool)
        ensures
            r == (self.pending().len() < length),
    {
        self.data.len() < length
    }

    /// Length of the next IN request when `length` bytes are wanted.
    pub fn request_len(&self, length: usize) -> (r: usize)
        requires
            self.pending().len() < length,
            request_len_for(self.packet_size(), (length - self.pending().len()) as usize)
                <= usize::MAX,
        ensures
            r == request_len_for(self.packet_size(), (length - self.pending().len()) as usize),
    {
        round_in_request_len(self.in_packet_size, length - self.data.len())
    }

    /// Adds the bytes of a completed transfer of `requested_len` bytes and
    /// decides how to go on: a short successful transfer ends the read, a
    /// failed one ends it too, and fails it when nothing is buffered.
    pub fn absorb(&mut self, packet: Vec<u8>, requested_len: usize, transfer_ok: bool) -> (r:
        ReadStep)
        ensures
            final(self).pending() == old(self).pending() + packet@,
            final(self).packet_size() == old(self).packet_size(),
            transfer_ok ==> r == (if packet@.len() < requested_len {
                ReadStep::Finished
            } else {
                ReadStep::Continue
            }),
            !transfer_ok ==> r == (if final(self).pending().len() == 0 {
                ReadStep::Failed
            } else {
                ReadStep::Finished
            }),
    {
        let packet_len = packet.len();
        if packet_len > 0 {
            self.data.extend_from_slice(packet.as_slice());
        }
        proof {
            if packet_len > 0 {
                assert(self.data@ =~= old(self).data@ + packet@);
            } else {
                assert(packet@ =~= Seq::<u8>::empty());
                assert(self.data@ =~= old(self).data@ + packet@);
            }
        }
        if transfer_ok {
            if packet_len < requested_len {
                ReadStep::Finished
            } else {
                ReadStep::Continue
            }
        } else if self.data.len() == 0 {
            ReadStep::Failed
        } else {
            ReadStep::Finished
        }
    }

    /// Hands out the oldest `length` buffered bytes, or all of them when fewer
    /// are buffered.
    pub fn take(&mut self, length: usize) -> (r: Vec<u8>)
        ensures
            final(self).packet_size() == old(self).packet_size(),
            ({
                let n = if length < old(self).pending().len() {
                    length as int
                } else {
                    old(self).pending().len() as int
                };
                &&& r@ == old(self).pending().take(n)
                &&& final(self).pending() == old(self).pending().skip(n)
            }),
    {
        let available = if length < self.data.len() {
            length
        } else {
            self.data.len()
        };
        let mut result = Vec::new();
        std::mem::swap(&mut result, &mut self.data);
        let rest = result.split_off(available);
        self.data = rest;
        result
    }

    /// Discards all buffered bytes.
    pub fn clear(&mut self)
        ensures
            final(self).pending() == Seq::<u8>::empty(),
            final(self).packet_size() == old(self).packet_size(),
    {
        self.data = Vec::new();
    }
}

/// End of the OUT chunk that starts at `start` in a message of `len` bytes:
/// chunks hold [`MAX_CHUNK_SIZE`] bytes, the last one what is left.
pub fn chunk_end(start: usize, len: usize) -> (r: usize)
    requires
        start < len,
    ensures
        len - start > MAX_CHUNK_SIZE ==> r == start + MAX_CHUNK_SIZE,
        len - start <= MAX_CHUNK_SIZE ==> r == len,
{
    if len - start > MAX_CHUNK_SIZE {
        start + MAX_CHUNK_SIZE
    } else {
        len
    }
}

/// The time left of an operation allowed `timeout_nanos` nanoseconds after
/// `elapsed_nanos` have passed; once nothing is left, the operation has timed
/// out.
pub fn remaining_timeout(timeout_nanos: u128, elapsed_nanos: u128) -> (r: Result<u128, ErpcError>)
    ensures
        elapsed_nanos >= timeout_nanos ==> r == Err::<u128, ErpcError>(
            ErpcError::Transport(TransportError::Timeout),
        ),
        elapsed_nanos < timeout_nanos ==> r == Ok::<u128, ErpcError>(
            (timeout_nanos - elapsed_nanos) as u128,
        ),
{
    if elapsed_nanos >= timeout_nanos {
        Err(ErpcError::Transport(TransportError::Timeout))
    } else {
        Ok(timeout_nanos - elapsed_nanos)
    }
}

/// The error reported when an OUT transfer fails with `message`.
pub fn map_send_error(message: String) -> (r: ErpcError)
    ensures
        r == ErpcError::Transport(TransportError::SendFailed(message)),
{
    ErpcError::Transport(TransportError::SendFailed(message))
}

/// The error reported when an IN transfer fails with `message`.
pub fn map_receive_error(message: String) -> (r: ErpcError)
    ensures
        r == ErpcError::Transport(TransportError::ReceiveFailed(message)),
{
    ErpcError::Transport(TransportError::ReceiveFailed(message))
}

} // verus!
