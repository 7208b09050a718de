//! Text rendering for telemetry records and output file names: decimal
//! and zero-padded hexadecimal numbers, composed into the one-line CSV
//! record schema and the receiver's file-name patterns.
use crate::Mode;
use vstd::prelude::*;

verus! {

/// Every byte of `s` is plain ASCII.
pub open spec fn ascii_only(s: Seq<u8>) -> bool {
    forall|i: int| 0 <= i < s.len() ==> s[i] < 128
}

/// The characters spelled by a sequence of ASCII bytes.
pub open spec fn ascii_chars(s: Seq<u8>) -> Seq<char> {
    s.map_values(|b: u8| b as char)
}

/// The ASCII digit for `d` in `0..=9`.
pub open spec fn dec_digit(d: int) -> u8
    recommends
        0 <= d < 10,
{
    (48 + d) as u8
}

/// The shortest decimal spelling of `n`, most significant digit first.
pub open spec fn dec_bytes(n: int) -> Seq<u8>
    recommends
        n >= 0,
    decreases n,
{
    if n < 10 {
        seq![dec_digit(n)]
    } else {
        dec_bytes(n / 10).push(dec_digit(n % 10))
    }
}

/// The ASCII digit for `d` in `0..=15`, lowercase.
pub open spec fn hex_digit(d: int) -> u8
    recommends
        0 <= d < 16,
{
    if d < 10 {
        (48 + d) as u8
    } else {
        (87 + d) as u8
    }
}

/// `x` as exactly 16 lowercase hex digits, zero padded.
pub open spec fn hex16_bytes(x: u64) -> Seq<u8> {
    Seq::new(16, |i: int| hex_digit(((x >> (((15 - i) * 4) as u64)) & 0xf) as int))
}

/// Decimal spellings are ASCII digits.
pub proof fn lemma_dec_bytes_ascii(n: int)
    requires
        n >= 0,
    ensures
        ascii_only(dec_bytes(n)),
        dec_bytes(n).len() >= 1,
    decreases n,
{
    if n >= 10 {
        lemma_dec_bytes_ascii(n / 10);
        assert forall|i: int| 0 <= i < dec_bytes(n).len() implies dec_bytes(n)[i] < 128 by {
            if i < dec_bytes(n / 10).len() {
                assert(dec_bytes(n)[i] == dec_bytes(n / 10)[i]);
            }
        }
    }
}

/// Hexadecimal spellings are ASCII.
pub proof fn lemma_hex16_ascii(x: u64)
    ensures
        ascii_only(hex16_bytes(x)),
        hex16_bytes(x).len() == 16,
{
    assert forall|i: int| 0 <= i < 16 implies hex16_bytes(x)[i] < 128 by {
        let d = ((x >> (((15 - i) * 4) as u64)) & 0xf) as int;
        assert(0 <= d < 16) by {
            let sh = ((15 - i) * 4) as u64;
            assert((x >> sh) & 0xf < 16) by (bit_vector);
        }
    }
}

/// ASCII survives concatenation.
pub proof fn lemma_ascii_concat(a: Seq<u8>, b: Seq<u8>)
    requires
        ascii_only(a),
        ascii_only(b),
    ensures
        ascii_only(a + b),
{
    assert forall|i: int| 0 <= i < (a + b).len() implies (a + b)[i] < 128 by {
        if i < a.len() {
            assert((a + b)[i] == a[i]);
        } else {
            assert((a + b)[i] == b[i - a.len()]);
        }
    }
}

/// Relies on `String::from_utf8`: ASCII bytes decode to a string of
/// exactly one char per byte, each the byte's own code point.
#[verifier::external_body]
fn ascii_string(v: Vec<u8>) -> (r: String)
    requires
        ascii_only(v@),
    ensures
        r@ == ascii_chars(v@),
{
    String::from_utf8(v).unwrap_or_default()
}

/// Appends the decimal spelling of `n`.
pub fn push_dec(out: &mut Vec<u8>, n: u64)
    ensures
        final(out)@ == old(out)@ + dec_bytes(n as int),
    decreases n,
{
    if n < 10 {
        out.push(48 + (n as u8));
        assert(out@ =~= old(out)@ + dec_bytes(n as int));
    } else {
        push_dec(out, n / 10);
        out.push(48 + ((n % 10) as u8));
        assert(out@ =~= old(out)@ + dec_bytes(n as int));
    }
}

/// Appends `x` as 16 zero-padded lowercase hex digits.
pub fn push_hex16(out: &mut Vec<u8>, x: u64)
    ensures
        final(out)@ == old(out)@ + hex16_bytes(x),
{
    let mut i: usize = 0;
    while i < 16
        invariant
            0 <= i <= 16,
            out@ == old(out)@ + hex16_bytes(x).subrange(0, i as int),
        decreases 16 - i,
    {
        let sh: u64 = ((15 - i) as u64) * 4;
        let d = (x >> sh) & 0xf;
        assert(d < 16) by (bit_vector)
            requires
                d == (x >> sh) & 0xf,
        ;
        let b = if d < 10 {
            48 + (d as u8)
        } else {
            87 + (d as u8)
        };
        out.push(b);
        proof {
            assert(sh == ((15 - i as int) * 4) as u64);
            assert(b == hex16_bytes(x)[i as int]);
            assert(old(out)@ + hex16_bytes(x).subrange(0, i as int) + seq![b] =~= old(out)@
                + hex16_bytes(x).subrange(0, i + 1));
        }
        i = i + 1;
    }
    assert(hex16_bytes(x).subrange(0, 16) =~= hex16_bytes(x));
}

/// Which end of the transfer a telemetry record describes.
#[derive(Clone, Copy, Debug, PartialEq, Eq, Structural)]
pub enum RecordKind {
    Send,
    Recv,
}

/// The record kind's field text: `send` or `recv`.
pub open spec fn kind_bytes(k: RecordKind) -> Seq<u8> {
    match k {
        RecordKind::Send => seq![115u8, 101u8, 110u8, 100u8],
        RecordKind::Recv => seq![114u8, 101u8, 99u8, 118u8],
    }
}

/// The channel kind's field text: `datagram` or `stream`.
pub open spec fn mode_bytes(m: Mode) -> Seq<u8> {
    match m {
        Mode::Datagram => seq![100u8, 97u8, 116u8, 97u8, 103u8, 114u8, 97u8, 109u8],
        Mode::Stream => seq![115u8, 116u8, 114u8, 101u8, 97u8, 109u8],
    }
}

/// One telemetry record:
/// `kind,timestamp,transfer_id_hex,offset,size,mode`.
pub open spec fn spec_telemetry_line(
    kind: RecordKind,
    timestamp_ns: u64,
    transfer_id: u64,
    offset: u64,
    size: u64,
    mode: Mode,
) -> Seq<u8> {
    kind_bytes(kind) + seq![44u8] + dec_bytes(timestamp_ns as int) + seq![44u8] + hex16_bytes(
        transfer_id,
    ) + seq![44u8] + dec_bytes(offset as int) + seq![44u8] + dec_bytes(size as int) + seq![44u8]
        + mode_bytes(mode)
}

/// Renders one telemetry record in the CSV schema
/// `kind,timestamp,transfer_id_hex,offset,size,mode`.
pub fn telemetry_line(
    kind: RecordKind,
    timestamp_ns: u64,
    transfer_id: u64,
    offset: u64,
    size: u64,
    mode: Mode,
) -> (r: String)
    ensures
        r@ == ascii_chars(
            spec_telemetry_line(kind, timestamp_ns, transfer_id, offset, size, mode),
        ),
{
    let mut v: Vec<u8> = Vec::new();
    match kind {
        RecordKind::Send => {
            v.push(115);
            v.push(101);
            v.push(110);
            v.push(100);
        },
        RecordKind::Recv => {
            v.push(114);
            v.push(101);
            v.push(99);
            v.push(118);
        },
    }
    assert(v@ =~= kind_bytes(kind));
    v.push(44);
    push_dec(&mut v, timestamp_ns);
    v.push(44);
    push_hex16(&mut v, transfer_id);
    v.push(44);
    push_dec(&mut v, offset);
    v.push(44);
    push_dec(&mut v, size);
    v.push(44);
    match mode {
        Mode::Datagram => {
            v.push(100);
            v.push(97);
            v.push(116);
            v.push(97);
            v.push(103);
            v.push(114);
            v.push(97);
            v.push(109);
        },
        Mode::Stream => {
            v.push(115);
            v.push(116);
            v.push(114);
            v.push(101);
            v.push(97);
            v.push(109);
        },
    }
    assert(v@ =~= spec_telemetry_line(kind, timestamp_ns, transfer_id, offset, size, mode));
    proof {
        lemma_dec_bytes_ascii(timestamp_ns as int);
        lemma_dec_bytes_ascii(offset as int);
        lemma_dec_bytes_ascii(size as int);
        lemma_hex16_ascii(transfer_id);
        assert(ascii_only(v@));
    }
    ascii_string(v)
}

/// The output file name of a datagram-mode transfer:
/// `<transfer_id as 16 hex digits>_size<total_size>.bin`.
pub open spec fn spec_dgram_file_name(file_id: u64, total_size: u64) -> Seq<u8> {
    hex16_bytes(file_id) + seq![95u8, 115u8, 105u8, 122u8, 101u8] + dec_bytes(total_size as int)
        + seq![46u8, 98u8, 105u8, 110u8]
}

/// The output file name of a stream transfer:
/// `<stream_id as 16 hex digits>.bin`.
pub open spec fn spec_stream_file_name(stream_id: u64) -> Seq<u8> {
    hex16_bytes(stream_id) + seq![46u8, 98u8, 105u8, 110u8]
}

/// Renders the datagram-mode output file name,
/// `<transfer_id as 16 hex digits>_size<total_size>.bin`.
pub fn dgram_file_name(file_id: u64, total_size: u64) -> (r: String)
    ensures
        r@ == ascii_chars(spec_dgram_file_name(file_id, total_size)),
{
    let mut v: Vec<u8> = Vec::new();
    push_hex16(&mut v, file_id);
    v.push(95);
    v.push(115);
    v.push(105);
    v.push(122);
    v.push(101);
    push_dec(&mut v, total_size);
    v.push(46);
    v.push(98);
    v.push(105);
    v.push(110);
    assert(v@ =~= spec_dgram_file_name(file_id, total_size));
    proof {
        lemma_dec_bytes_ascii(total_size as int);
        lemma_hex16_ascii(file_id);
        assert(ascii_only(v@));
    }
    ascii_string(v)
}

/// Renders the stream output file name,
/// `<stream_id as 16 hex digits>.bin`.
pub fn stream_file_name(stream_id: u64) -> (r: String)
    ensures
        r@ == ascii_chars(spec_stream_file_name(stream_id)),
{
    let mut v: Vec<u8> = Vec::new();
    push_hex16(&mut v, stream_id);
    v.push(46);
    v.push(98);
    v.push(105);
    v.push(110);
    assert(v@ =~= spec_stream_file_name(stream_id));
    proof {
        lemma_hex16_ascii(stream_id);
        assert(ascii_only(v@));
    }
    ascii_string(v)
}

} // verus!
