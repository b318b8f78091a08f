//! The CRC-16 used by the eRPC framing (polynomial 0x1021, MSB first,
//! start value 0xEF4A).

use vstd::prelude::*;

verus! {

/// Start value of the checksum.
pub const CRC16_START: u16 = 0xEF4A;

/// One shift step of the checksum register.
pub open spec fn crc16_shift(c: u16) -> u16 {
    if c & 0x8000u16 != 0 {
        (c << 1u16) ^ 0x1021u16
    } else {
        c << 1u16
    }
}

/// `n` shift steps of the checksum register.
pub open spec fn crc16_shifts(c: u16, n: nat) -> u16
    decreases n,
{
    if n == 0 {
        c
    } else {
        crc16_shift(crc16_shifts(c, (n - 1) as nat))
    }
}

/// The register after feeding one byte.
pub open spec fn crc16_byte(crc: u16, byte: u8) -> u16 {
    crc16_shifts(crc ^ ((byte as u16) << 8u16), 8)
}

/// The register after feeding `data`, starting from `start`.
pub open spec fn crc16_from(start: u16, data: Seq<u8>) -> u16
    decreases data.len(),
{
    if data.len() == 0 {
        start
    } else {
        crc16_byte(crc16_from(start, data.drop_last()), data.last())
    }
}

/// The checksum of `data`.
pub open spec fn crc16(data: Seq<u8>) -> u16 {
    crc16_from(CRC16_START, data)
}

/// The checksum is the register started at 0xEF4A and fed every byte of the
/// data, one after another: each byte is XORed into the high half of the
/// register, then the register is shifted left eight times, XORing in 0x1021
/// whenever the bit shifted out was set.
pub proof fn law_crc16_feeds_every_byte(data: Seq<u8>, byte: u8)
    ensures
        crc16(Seq::<u8>::empty()) == 0xEF4Au16,
        crc16(data.push(byte)) == crc16_shifts(crc16(data) ^ ((byte as u16) << 8u16), 8),
        forall|c: u16|
            #[trigger] crc16_shift(c) == if c & 0x8000u16 != 0 {
                (c << 1u16) ^ 0x1021u16
            } else {
                c << 1u16
            },
        forall|c: u16| #[trigger] crc16_shifts(c, 0) == c,
        forall|c: u16, n: nat|
            #[trigger] crc16_shifts(c, n + 1) == crc16_shift(crc16_shifts(c, n)),
{
    assert(data.push(byte).drop_last() =~= data);
    assert forall|c: u16, n: nat| #[trigger] crc16_shifts(c, n + 1) == crc16_shift(crc16_shifts(c, n)) by {
        assert((n + 1) as nat - 1 == n);
    }
}

fn update_byte(crc: u16, byte: u8) -> (r: u16)
    ensures
        r == crc16_byte(crc, byte),
{
    let start: u16 = crc ^ ((byte as u16) << 8u16);
    let mut c: u16 = start;
    let mut i: u32 = 0;
    while i < 8
        invariant
            i <= 8,
            c == crc16_shifts(start, i as nat),
        decreases 8 - i,
    {
        if c & 0x8000u16 != 0 {
            c = (c << 1u16) ^ 0x1021u16;
        } else {
            c = c << 1u16;
        }
        i = i + 1;
    }
    c
}

/// Computes the checksum of `data`.
pub fn calculate(data: &[u8]) -> (r: u16)
    ensures
        r == crc16(data@),
{
    let mut crc: u16 = CRC16_START;
    let mut i: usize = 0;
    while i < data.len()
        invariant
            i <= data@.len(),
            crc == crc16_from(CRC16_START, data@.take(i as int)),
        decreases data.len() - i,
    {
        proof {
            assert(data@.take(i + 1).drop_last() =~= data@.take(i as int));
        }
        crc = update_byte(crc, data[i]);
        i = i + 1;
    }
    proof {
        assert(data@.take(data@.len() as int) =~= data@);
    }
    crc
}

} // verus!
