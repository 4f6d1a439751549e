//! The raw dump codec: a histogram buffer as a flat sequence of 32-bit
//! counters, four little-endian bytes each, with no header and no length
//! prefix. The reader must be told the pixel count out of band.

use vstd::prelude::*;

verus! {

/// The flat position of byte `k` within the encoding of counter `i`.
pub open spec fn byte_pos(i: int, k: int) -> int {
    4 * i + k
}

/// Byte `k` (0 = least significant) of a counter's little-endian encoding.
pub open spec fn le_byte(v: u32, k: int) -> u8 {
    if k == 0 {
        (v & 0xff) as u8
    } else if k == 1 {
        ((v >> 8) & 0xff) as u8
    } else if k == 2 {
        ((v >> 16) & 0xff) as u8
    } else {
        ((v >> 24) & 0xff) as u8
    }
}

/// The counter encoded by four little-endian bytes.
pub open spec fn u32_of_le(b0: u8, b1: u8, b2: u8, b3: u8) -> u32 {
    (b0 as u32) | ((b1 as u32) << 8) | ((b2 as u32) << 16) | ((b3 as u32) << 24)
}

/// Decoding the four bytes of a counter's encoding restores the counter.
pub proof fn lemma_le_round_trip(v: u32)
    ensures
        u32_of_le(le_byte(v, 0), le_byte(v, 1), le_byte(v, 2), le_byte(v, 3)) == v,
{
    assert(((v & 0xff) as u8 as u32) | ((((v >> 8) & 0xff) as u8 as u32) << 8) | ((((v >> 16)
        & 0xff) as u8 as u32) << 16) | ((((v >> 24) & 0xff) as u8 as u32) << 24) == v)
        by (bit_vector);
}

/// Encode the histogram for the raw dump: each counter as four little-endian
/// bytes, in buffer order.
pub fn buffer_to_bytes(buffer: &Vec<u32>) -> (r: Vec<u8>)
    requires
        buffer.len() <= usize::MAX / 4,
    ensures
        r.len() == 4 * buffer.len(),
        forall|i: int, k: int|
            0 <= i < buffer.len() && 0 <= k < 4 ==> r@[#[trigger] byte_pos(i, k)] == le_byte(
                buffer@[i],
                k,
            ),
{
    let n = buffer.len();
    let mut r: Vec<u8> = Vec::new();
    let mut i: usize = 0;
    while i < n
        invariant
            i <= n,
            n == buffer.len(),
            n <= usize::MAX / 4,
            r.len() == 4 * i,
            forall|q: int, k: int|
                0 <= q < i && 0 <= k < 4 ==> r@[#[trigger] byte_pos(q, k)] == le_byte(
                    buffer@[q],
                    k,
                ),
        decreases n - i,
    {
        let v = buffer[i];
        r.push((v & 0xff) as u8);
        r.push(((v >> 8) & 0xff) as u8);
        r.push(((v >> 16) & 0xff) as u8);
        r.push(((v >> 24) & 0xff) as u8);
        i = i + 1;
    }
    r
}

/// Decode a raw dump of `3 * pixels` counters; a byte sequence of any other
/// length is malformed and yields nothing.
pub fn buffer_from_bytes(bytes: &Vec<u8>, pixels: usize) -> (r: Option<Vec<u32>>)
    requires
        pixels <= usize::MAX / 12,
    ensures
        r is Some <==> bytes.len() == 12 * pixels,
        match r {
            Some(v) => v.len() == 3 * pixels && forall|i: int|
                0 <= i < v.len() ==> #[trigger] v@[i] == u32_of_le(
                    bytes@[byte_pos(i, 0)],
                    bytes@[byte_pos(i, 1)],
                    bytes@[byte_pos(i, 2)],
                    bytes@[byte_pos(i, 3)],
                ),
            None => bytes.len() != 12 * pixels,
        },
{
    let n = 3 * pixels;
    if bytes.len() != 4 * n {
        return None;
    }
    let mut v: Vec<u32> = Vec::new();
    let mut i: usize = 0;
    while i < n
        invariant
            i <= n,
            n == 3 * pixels,
            pixels <= usize::MAX / 12,
            bytes.len() == 4 * n,
            v.len() == i,
            forall|q: int|
                0 <= q < i ==> #[trigger] v@[q] == u32_of_le(
                    bytes@[byte_pos(q, 0)],
                    bytes@[byte_pos(q, 1)],
                    bytes@[byte_pos(q, 2)],
                    bytes@[byte_pos(q, 3)],
                ),
        decreases n - i,
    {
        let b0 = bytes[4 * i];
        let b1 = bytes[4 * i + 1];
        let b2 = bytes[4 * i + 2];
        let b3 = bytes[4 * i + 3];
        let c = (b0 as u32) | ((b1 as u32) << 8) | ((b2 as u32) << 16) | ((b3 as u32) << 24);
        proof {
            assert(4 * i == byte_pos(i as int, 0));
        }
        v.push(c);
        i = i + 1;
    }
    Some(v)
}

/// Law: writing a histogram to the raw dump format and decoding the bytes
/// with the same pixel count restores the histogram exactly.
pub proof fn lemma_dump_round_trip(
    buffer: Seq<u32>,
    bytes: Seq<u8>,
    restored: Seq<u32>,
    pixels: int,
)
    requires
        buffer.len() == 3 * pixels,
        bytes.len() == 4 * buffer.len(),
        forall|i: int, k: int|
            0 <= i < buffer.len() && 0 <= k < 4 ==> bytes[#[trigger] byte_pos(i, k)] == le_byte(
                buffer[i],
                k,
            ),
        restored.len() == 3 * pixels,
        forall|i: int|
            0 <= i < restored.len() ==> #[trigger] restored[i] == u32_of_le(
                bytes[byte_pos(i, 0)],
                bytes[byte_pos(i, 1)],
                bytes[byte_pos(i, 2)],
                bytes[byte_pos(i, 3)],
            ),
    ensures
        restored == buffer,
{
    assert forall|i: int| 0 <= i < buffer.len() implies restored[i] == buffer[i] by {
        lemma_le_round_trip(buffer[i]);
    }
    assert(restored =~= buffer);
}

} // verus!
