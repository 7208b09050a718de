//! Wire framing of a transfer chunk: the fixed 40-byte little-endian
//! header that precedes each unreliable-message payload.
use vstd::prelude::*;

verus! {

/// The bytes of `x` in little-endian order, least significant first.
pub open spec fn u64_le_bytes(x: u64) -> Seq<u8> {
    seq![
        (x & 0xff) as u8,
        ((x >> 8) & 0xff) as u8,
        ((x >> 16) & 0xff) as u8,
        ((x >> 24) & 0xff) as u8,
        ((x >> 32) & 0xff) as u8,
        ((x >> 40) & 0xff) as u8,
        ((x >> 48) & 0xff) as u8,
        ((x >> 56) & 0xff) as u8,
    ]
}

/// The bytes of `x` in little-endian order, least significant first.
pub open spec fn u32_le_bytes(x: u32) -> Seq<u8> {
    seq![(x & 0xff) as u8, ((x >> 8) & 0xff) as u8, ((x >> 16) & 0xff) as u8, ((x >> 24) & 0xff) as u8]
}

/// The value read little-endian from 8 bytes.
pub open spec fn le_u64(s: Seq<u8>) -> u64
    recommends
        s.len() == 8,
{
    (s[0] as u64) | ((s[1] as u64) << 8) | ((s[2] as u64) << 16) | ((s[3] as u64) << 24)
        | ((s[4] as u64) << 32) | ((s[5] as u64) << 40) | ((s[6] as u64) << 48) | ((
    s[7] as u64) << 56)
}

/// The value read little-endian from 4 bytes.
pub open spec fn le_u32(s: Seq<u8>) -> u32
    recommends
        s.len() == 4,
{
    (s[0] as u32) | ((s[1] as u32) << 8) | ((s[2] as u32) << 16) | ((s[3] as u32) << 24)
}

/// Reading the little-endian bytes of a value gives the value back.
pub proof fn lemma_u64_le_round_trip(x: u64)
    ensures
        le_u64(u64_le_bytes(x)) == x,
{
    let b0 = (x & 0xff) as u8;
    let b1 = ((x >> 8) & 0xff) as u8;
    let b2 = ((x >> 16) & 0xff) as u8;
    let b3 = ((x >> 24) & 0xff) as u8;
    let b4 = ((x >> 32) & 0xff) as u8;
    let b5 = ((x >> 40) & 0xff) as u8;
    let b6 = ((x >> 48) & 0xff) as u8;
    let b7 = ((x >> 56) & 0xff) as u8;
    assert((b0 as u64) | ((b1 as u64) << 8) | ((b2 as u64) << 16) | ((b3 as u64) << 24) | ((
    b4 as u64) << 32) | ((b5 as u64) << 40) | ((b6 as u64) << 48) | ((b7 as u64) << 56) == x)
        by (bit_vector)
        requires
            b0 == (x & 0xff) as u8,
            b1 == ((x >> 8) & 0xff) as u8,
            b2 == ((x >> 16) & 0xff) as u8,
            b3 == ((x >> 24) & 0xff) as u8,
            b4 == ((x >> 32) & 0xff) as u8,
            b5 == ((x >> 40) & 0xff) as u8,
            b6 == ((x >> 48) & 0xff) as u8,
            b7 == ((x >> 56) & 0xff) as u8,
    ;
}

/// Reading the little-endian bytes of a value gives the value back.
pub proof fn lemma_u32_le_round_trip(x: u32)
    ensures
        le_u32(u32_le_bytes(x)) == x,
{
    let b0 = (x & 0xff) as u8;
    let b1 = ((x >> 8) & 0xff) as u8;
    let b2 = ((x >> 16) & 0xff) as u8;
    let b3 = ((x >> 24) & 0xff) as u8;
    assert((b0 as u32) | ((b1 as u32) << 8) | ((b2 as u32) << 16) | ((b3 as u32) << 24) == x)
        by (bit_vector)
        requires
            b0 == (x & 0xff) as u8,
            b1 == ((x >> 8) & 0xff) as u8,
            b2 == ((x >> 16) & 0xff) as u8,
            b3 == ((x >> 24) & 0xff) as u8,
    ;
}

/// Appends the 8 little-endian bytes of `x` to `out`.
pub fn push_u64_le(out: &mut Vec<u8>, x: u64)
    ensures
        final(out)@ == old(out)@ + u64_le_bytes(x),
{
    out.push((x & 0xff) as u8);
    out.push(((x >> 8) & 0xff) as u8);
    out.push(((x >> 16) & 0xff) as u8);
    out.push(((x >> 24) & 0xff) as u8);
    out.push(((x >> 32) & 0xff) as u8);
    out.push(((x >> 40) & 0xff) as u8);
    out.push(((x >> 48) & 0xff) as u8);
    out.push(((x >> 56) & 0xff) as u8);
    assert(out@ =~= old(out)@ + u64_le_bytes(x));
}

/// Appends the 4 little-endian bytes of `x` to `out`.
pub fn push_u32_le(out: &mut Vec<u8>, x: u32)
    ensures
        final(out)@ == old(out)@ + u32_le_bytes(x),
{
    out.push((x & 0xff) as u8);
    out.push(((x >> 8) & 0xff) as u8);
    out.push(((x >> 16) & 0xff) as u8);
    out.push(((x >> 24) & 0xff) as u8);
    assert(out@ =~= old(out)@ + u32_le_bytes(x));
}

/// Reads a value little-endian from `buf` at position `i`.
pub fn read_u64_le(buf: &[u8], i: usize) -> (x: u64)
    requires
        i + 8 <= buf@.len(),
    ensures
        x == le_u64(buf@.subrange(i as int, i + 8)),
{
    let x = (buf[i] as u64) | ((buf[i + 1] as u64) << 8) | ((buf[i + 2] as u64) << 16) | ((buf[i
        + 3] as u64) << 24) | ((buf[i + 4] as u64) << 32) | ((buf[i + 5] as u64) << 40) | ((buf[i
        + 6] as u64) << 48) | ((buf[i + 7] as u64) << 56);
    assert(forall|k: int| 0 <= k < 8 ==> #[trigger] buf@.subrange(i as int, i + 8)[k] == buf@[i + k]);
    x
}

/// Reads a value little-endian from `buf` at position `i`.
pub fn read_u32_le(buf: &[u8], i: usize) -> (x: u32)
    requires
        i + 4 <= buf@.len(),
    ensures
        x == le_u32(buf@.subrange(i as int, i + 4)),
{
    let x = (buf[i] as u32) | ((buf[i + 1] as u32) << 8) | ((buf[i + 2] as u32) << 16) | ((buf[i
        + 3] as u32) << 24);
    assert(forall|k: int| 0 <= k < 4 ==> #[trigger] buf@.subrange(i as int, i + 4)[k] == buf@[i + k]);
    x
}

/// The header that precedes each unreliable-message chunk on the wire:
/// transfer identity, declared file size, the chunk's byte range, a
/// "last chunk" flag bit, and the sender's timestamp.
#[derive(Clone, Copy, Debug, PartialEq, Eq, Structural)]
pub struct DgHdr {
    pub file_id: u64,
    pub total_size: u64,
    pub offset: u64,
    pub len: u32,
    pub flags: u8,
    pub send_ts_ns: u64,
}

/// The exact 40-byte wire image of a header: every field little-endian,
/// in order, with three zero padding bytes after the flags.
pub open spec fn spec_encode(h: DgHdr) -> Seq<u8> {
    u64_le_bytes(h.file_id) + u64_le_bytes(h.total_size) + u64_le_bytes(h.offset) + u32_le_bytes(
        h.len,
    ) + seq![h.flags, 0u8, 0u8, 0u8] + u64_le_bytes(h.send_ts_ns)
}

/// The header read back from the first 40 bytes of `s`.
pub open spec fn spec_decode(s: Seq<u8>) -> DgHdr
    recommends
        s.len() >= DgHdr::SIZE,
{
    DgHdr {
        file_id: le_u64(s.subrange(0, 8)),
        total_size: le_u64(s.subrange(8, 16)),
        offset: le_u64(s.subrange(16, 24)),
        len: le_u32(s.subrange(24, 28)),
        flags: s[28],
        send_ts_ns: le_u64(s.subrange(32, 40)),
    }
}

impl DgHdr {
    pub const SIZE: usize = 40;

    /// Appends the 40-byte wire image of this header to `b`.
    pub fn write_to(&self, b: &mut Vec<u8>)
        ensures
            final(b)@ == old(b)@ + spec_encode(*self),
    {
        push_u64_le(b, self.file_id);
        push_u64_le(b, self.total_size);
        push_u64_le(b, self.offset);
        push_u32_le(b, self.len);
        b.push(self.flags);
        b.push(0);
        b.push(0);
        b.push(0);
        push_u64_le(b, self.send_ts_ns);
        assert(b@ =~= old(b)@ + spec_encode(*self));
    }

    /// The 40-byte wire image of this header.
    pub fn encode(&self) -> (r: Vec<u8>)
        ensures
            r@ == spec_encode(*self),
    {
        let mut b: Vec<u8> = Vec::new();
        self.write_to(&mut b);
        assert(b@ =~= spec_encode(*self));
        b
    }

    /// Splits `buf` into its leading header and the remaining payload.
    /// Fails exactly when fewer than 40 bytes are supplied.
    pub fn parse(buf: &[u8]) -> (r: Option<(DgHdr, &[u8])>)
        ensures
            buf@.len() < DgHdr::SIZE ==> r is None,
            buf@.len() >= DgHdr::SIZE ==> (r matches Some((h, payload)) && h == spec_decode(buf@)
                && payload@ == buf@.skip(DgHdr::SIZE as int)),
    {
        if buf.len() < Self::SIZE {
            return None;
        }
        let file_id = read_u64_le(buf, 0);
        let total_size = read_u64_le(buf, 8);
        let offset = read_u64_le(buf, 16);
        let len = read_u32_le(buf, 24);
        let flags = buf[28];
        let send_ts_ns = read_u64_le(buf, 32);
        let (_, payload) = buf.split_at(Self::SIZE);
        let h = DgHdr { file_id, total_size, offset, len, flags, send_ts_ns };
        assert(payload@ =~= buf@.skip(DgHdr::SIZE as int));
        Some((h, payload))
    }

    /// Whether bit 0 of the flags marks this as the final chunk.
    pub fn is_last(&self) -> (r: bool)
        ensures
            r == (self.flags & 0x01 != 0),
    {
        self.flags & 0x01 != 0
    }
}

/// Decoding an encoded header gives the header back, with no payload
/// bytes left over: the wire image is exactly 40 bytes.
pub proof fn lemma_header_round_trip(h: DgHdr)
    ensures
        spec_encode(h).len() == DgHdr::SIZE,
        spec_decode(spec_encode(h)) == h,
        spec_encode(h).skip(DgHdr::SIZE as int) == Seq::<u8>::empty(),
{
    let s = spec_encode(h);
    assert(s.subrange(0, 8) =~= u64_le_bytes(h.file_id));
    assert(s.subrange(8, 16) =~= u64_le_bytes(h.total_size));
    assert(s.subrange(16, 24) =~= u64_le_bytes(h.offset));
    assert(s.subrange(24, 28) =~= u32_le_bytes(h.len));
    assert(s.subrange(32, 40) =~= u64_le_bytes(h.send_ts_ns));
    lemma_u64_le_round_trip(h.file_id);
    lemma_u64_le_round_trip(h.total_size);
    lemma_u64_le_round_trip(h.offset);
    lemma_u32_le_round_trip(h.len);
    lemma_u64_le_round_trip(h.send_ts_ns);
    assert(s[28] == h.flags);
    assert(spec_decode(s) == h);
    assert(s.skip(DgHdr::SIZE as int) =~= Seq::<u8>::empty());
}

} // verus!
