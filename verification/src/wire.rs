//! Mathematical model of the opaque wire format, and the padding function
//! shared by the encoder and the decoder.
//!
//! A payload of `n` bytes is framed as the four-byte big-endian encoding of
//! `n`, the payload itself, and `spec_pad(n)` zero bytes, so that the region
//! after the length prefix is a multiple of four bytes long.

use vstd::arithmetic::div_mod::{
    lemma_div_denominator, lemma_fundamental_div_mod, lemma_mod_multiples_basic,
};
use vstd::prelude::*;
use vstd::slice::slice_index_get;

verus! {

broadcast use vstd::slice::axiom_spec_len;

/// Number of zero bytes that bring a payload of `n` bytes up to the next
/// multiple of four: `0` when `n` is already aligned, else `4 - n % 4`.
pub open spec fn spec_pad(n: int) -> int {
    if n % 4 == 0 {
        0
    } else {
        4 - n % 4
    }
}

/// The padding is at most three bytes and completes `n` to a multiple of four.
pub proof fn lemma_pad_bounds(n: int)
    requires
        n >= 0,
    ensures
        0 <= spec_pad(n) <= 3,
        (n + spec_pad(n)) % 4 == 0,
{
    lemma_fundamental_div_mod(n, 4);
    if n % 4 == 0 {
        assert(n + spec_pad(n) == (n / 4) * 4);
        lemma_mod_multiples_basic(n / 4, 4);
    } else {
        assert(n + spec_pad(n) == (n / 4 + 1) * 4);
        lemma_mod_multiples_basic(n / 4 + 1, 4);
    }
}

/// Zero-fill bytes that pad a payload of `l` bytes to a four-byte boundary.
///
/// Both the encoder and the decoder call this function; neither re-derives
/// the alignment rule on its own.
pub fn pad_length(l: u32) -> (r: u32)
    ensures
        r == spec_pad(l as int),
        r <= 3,
        (l + r) % 4 == 0,
{
    proof {
        lemma_pad_bounds(l as int);
    }
    if l % 4 == 0 {
        0
    } else {
        4 - l % 4
    }
}

/// The unsigned value of the four big-endian bytes at the front of `s`.
pub open spec fn be_val(s: Seq<u8>) -> int
    recommends
        s.len() >= 4,
{
    s[0] * 0x100_0000 + s[1] * 0x1_0000 + s[2] * 0x100 + s[3]
}

/// The four-byte big-endian encoding of `v`.
pub open spec fn be_bytes(v: int) -> Seq<u8>
    recommends
        0 <= v < 0x1_0000_0000,
{
    seq![
        (v / 0x100_0000) as u8,
        ((v / 0x1_0000) % 0x100) as u8,
        ((v / 0x100) % 0x100) as u8,
        (v % 0x100) as u8,
    ]
}

/// A run of `n` zero bytes.
pub open spec fn zero_bytes(n: int) -> Seq<u8> {
    Seq::new(n as nat, |i: int| 0u8)
}

/// The whole wire frame of a payload: length prefix, payload, zero padding.
pub open spec fn spec_frame(p: Seq<u8>) -> Seq<u8> {
    be_bytes(p.len() as int) + p + zero_bytes(spec_pad(p.len() as int))
}

/// What decoding one opaque field of `w`, starting at byte `pos`, yields:
/// the payload and the cursor position just past the padded field, or
/// nothing when fewer bytes remain than the length prefix declares (or than
/// the prefix itself needs).
///
/// The padding bytes are skipped, never inspected: non-zero padding is
/// accepted as-is.
pub open spec fn spec_decode(w: Seq<u8>, pos: int) -> Option<(Seq<u8>, int)> {
    if 0 <= pos && pos + 4 <= w.len() {
        let n = be_val(w.subrange(pos, pos + 4));
        if pos + 4 + n <= w.len() {
            Some((w.subrange(pos + 4, pos + 4 + n), pos + 4 + n + spec_pad(n)))
        } else {
            None
        }
    } else {
        None
    }
}

/// Whether decoding one field of `w` at `pos` succeeds and leaves the cursor
/// at a position the machine's word can hold.
pub open spec fn decode_ok(w: Seq<u8>, pos: int) -> bool {
    match spec_decode(w, pos) {
        Some(d) => d.1 <= usize::MAX,
        None => false,
    }
}

/// Reading the four big-endian bytes of `v` back gives `v`.
pub proof fn lemma_be_val_of_be_bytes(v: int)
    requires
        0 <= v < 0x1_0000_0000,
    ensures
        be_val(be_bytes(v)) == v,
{
    lemma_fundamental_div_mod(v, 0x100);
    lemma_fundamental_div_mod(v / 0x100, 0x100);
    lemma_fundamental_div_mod(v / 0x1_0000, 0x100);
    lemma_div_denominator(v, 0x100, 0x100);
    lemma_div_denominator(v, 0x1_0000, 0x100);
    assert((v / 0x100) / 0x100 == v / 0x1_0000);
    assert((v / 0x1_0000) / 0x100 == v / 0x100_0000);
}

/// Reads the unsigned 32-bit big-endian integer stored at `s[i..i + 4]`.
pub(crate) fn be_u32_at(s: &[u8], i: usize) -> (v: u32)
    requires
        i + 4 <= s@.len(),
    ensures
        v == be_val(s@.subrange(i as int, i as int + 4)),
{
    proof {
        assert(vstd::slice::spec_slice_len(s) == s@.len());
    }
    let b0 = *slice_index_get(s, i);
    let b1 = *slice_index_get(s, i + 1);
    let b2 = *slice_index_get(s, i + 2);
    let b3 = *slice_index_get(s, i + 3);
    let v: u32 = b0 as u32 * 0x100_0000 + b1 as u32 * 0x1_0000 + b2 as u32 * 0x100 + b3 as u32;
    proof {
        let t = s@.subrange(i as int, i as int + 4);
        assert(t[0] == b0 && t[1] == b1 && t[2] == b2 && t[3] == b3);
    }
    v
}

/// Appends the four-byte big-endian encoding of `v` to `buf`.
pub(crate) fn push_be_u32(buf: &mut Vec<u8>, v: u32)
    ensures
        final(buf)@ == old(buf)@ + be_bytes(v as int),
{
    buf.push((v / 0x100_0000) as u8);
    buf.push(((v / 0x1_0000) % 0x100) as u8);
    buf.push(((v / 0x100) % 0x100) as u8);
    buf.push((v % 0x100) as u8);
    proof {
        assert(buf@ =~= old(buf)@ + be_bytes(v as int));
    }
}

/// Frame size law: the frame of a payload is its length, the padding that
/// aligns it, and the four prefix bytes; everything after the prefix is a
/// multiple of four bytes long.
pub proof fn lemma_frame_size(p: Seq<u8>)
    requires
        p.len() <= u32::MAX,
    ensures
        spec_frame(p).len() == 4 + p.len() + spec_pad(p.len() as int),
        (spec_frame(p).len() - 4) % 4 == 0,
{
    lemma_pad_bounds(p.len() as int);
}

/// Zero-fill invariant: every padding byte of a frame is `0x00`, so the frame
/// is a function of the payload bytes alone and identical payloads encode to
/// identical bytes.
pub proof fn lemma_frame_padding_zero(p: Seq<u8>)
    requires
        p.len() <= u32::MAX,
    ensures
        forall|i: int|
            4 + p.len() <= i < spec_frame(p).len() ==> spec_frame(p)[i] == 0,
{
}

/// Round-trip identity: decoding the frame of any payload `p`, from the start
/// of the frame, recovers exactly `p` and leaves the position at the end of
/// the frame; it cannot fail for any frame the machine can hold.
pub proof fn lemma_round_trip(p: Seq<u8>)
    requires
        p.len() <= u32::MAX,
    ensures
        spec_decode(spec_frame(p), 0) == Some((p, spec_frame(p).len() as int)),
        spec_frame(p).len() <= usize::MAX ==> decode_ok(spec_frame(p), 0),
{
    let w = spec_frame(p);
    let n = p.len() as int;
    lemma_pad_bounds(n);
    lemma_be_val_of_be_bytes(n);
    assert(w.subrange(0, 4) =~= be_bytes(n));
    assert(be_val(w.subrange(0, 4)) == n);
    assert(w.subrange(4, 4 + n) =~= p);
}

} // verus!
