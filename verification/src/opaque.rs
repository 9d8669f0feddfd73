//! The XDR variable-length opaque type (RFC 1014, section 3.12): an
//! uninterpreted byte array carried on the wire as a four-byte big-endian
//! length prefix, the payload, and zero padding to a four-byte boundary.

use crate::cursor::Cursor;
use crate::wire::{be_bytes, be_u32_at, decode_ok, lemma_pad_bounds, pad_length, push_be_u32,
    spec_decode, spec_frame, spec_pad, zero_bytes};
use vstd::prelude::*;
use vstd::slice::slice_index_get;
use vstd::slice::slice_subrange;

verus! {

broadcast use vstd::slice::axiom_spec_len;

/// Why an opaque field could not be decoded or encoded.
#[derive(Debug, Clone, Copy, PartialEq, Eq, Structural)]
pub enum Error {
    /// Fewer bytes remain in the source than the field needs: either the
    /// four-byte length prefix itself, or the payload the prefix declares.
    TruncatedInput,
    /// The payload is longer than the 32-bit wire length field can count.
    EncodingTooLarge,
}

/// A variable-length opaque value: a read-only view of payload bytes,
/// borrowed either from the buffer it was decoded from (zero-copy) or from
/// the caller's own storage. It holds no allocation of its own.
#[derive(Debug, Clone, Copy, PartialEq)]
pub struct Opaque<'a> {
    body: &'a [u8],
}

impl<'a> View for Opaque<'a> {
    type V = Seq<u8>;

    closed spec fn view(&self) -> Seq<u8> {
        self.body@
    }
}

impl<'a> Opaque<'a> {
    /// Decodes one opaque field at the cursor's position, borrowing the
    /// payload from the cursor's buffer, and advances the cursor past the
    /// whole field: prefix, payload and padding. The padding bytes are
    /// consumed without being inspected.
    ///
    /// Fails with `TruncatedInput` exactly when decoding at that position
    /// cannot succeed; after a failure the cursor must be repositioned
    /// before it is reused.
    pub fn try_from(c: &mut Cursor<'a>) -> (r: Result<Opaque<'a>, Error>)
        ensures
            final(c).buf() == old(c).buf(),
            r is Ok <==> decode_ok(old(c).buf(), old(c).pos()),
            r matches Ok(o) ==> spec_decode(old(c).buf(), old(c).pos()) matches Some(d)
                && o@ == d.0 && final(c).pos() == d.1,
            r matches Err(e) ==> e == Error::TruncatedInput,
    {
        let data: &'a [u8] = c.buffer();
        let buf_len = data.len();
        let pos = c.position();
        if pos > buf_len || buf_len - pos < 4 {
            return Err(Error::TruncatedInput);
        }
        let len32 = be_u32_at(data, pos);
        let start = pos + 4;
        let n = len32 as usize;
        if n > buf_len - start {
            return Err(Error::TruncatedInput);
        }
        let end = start + n;
        let body = slice_subrange(data, start, end);
        let pad = pad_length(len32) as usize;
        if pad > usize::MAX - end {
            return Err(Error::TruncatedInput);
        }
        c.set_position(end + pad);
        Ok(Opaque { body })
    }

    /// Wraps caller-owned bytes as an opaque value, for encoding.
    pub fn from(data: &'a [u8]) -> (o: Opaque<'a>)
        ensures
            o@ == data@,
    {
        Opaque { body: data }
    }

    /// The length of the payload in bytes.
    pub fn len(&self) -> (n: usize)
        ensures
            n == self@.len(),
    {
        self.body.len()
    }

    /// The payload bytes themselves.
    pub fn as_ref(&self) -> (b: &'a [u8])
        ensures
            b@ == self@,
    {
        self.body
    }
}

/// Types that encode as one XDR opaque field.
pub trait SerializeOpaque {
    /// The logical payload bytes the encoding carries.
    spec fn payload(&self) -> Seq<u8>;

    /// Appends the canonical wire frame of the payload to `buf`: big-endian
    /// length prefix, payload, zero padding. Fails with `EncodingTooLarge`,
    /// writing nothing, exactly when the payload is longer than the 32-bit
    /// length field can count.
    fn serialise_into(&self, buf: &mut Vec<u8>) -> (r: Result<(), Error>)
        ensures
            r is Ok <==> self.payload().len() <= u32::MAX,
            r is Ok ==> final(buf)@ == old(buf)@ + spec_frame(self.payload()),
            r is Err ==> final(buf)@ == old(buf)@,
            r matches Err(e) ==> e == Error::EncodingTooLarge,
    ;

    /// The number of wire bytes after the four-byte prefix: payload plus
    /// padding. The whole frame takes four bytes more.
    fn serialised_len(&self) -> (n: u32)
        requires
            self.payload().len() + spec_pad(self.payload().len() as int) <= u32::MAX,
        ensures
            n == self.payload().len() + spec_pad(self.payload().len() as int),
    ;
}

impl<'a> SerializeOpaque for Opaque<'a> {
    open spec fn payload(&self) -> Seq<u8> {
        self@
    }

    fn serialise_into(&self, buf: &mut Vec<u8>) -> (r: Result<(), Error>) {
        let n = self.body.len();
        if n > u32::MAX as usize {
            return Err(Error::EncodingTooLarge);
        }
        let len32 = n as u32;
        let ghost base: Seq<u8> = buf@;
        push_be_u32(buf, len32);
        let mut i: usize = 0;
        while i < n
            invariant
                i <= n,
                n == self.body@.len(),
                buf@ == base + be_bytes(n as int)
                    + self.body@.subrange(0, i as int),
            decreases n - i,
        {
            buf.push(*slice_index_get(self.body, i));
            proof {
                assert(self.body@.subrange(0, i + 1) =~= self.body@.subrange(0, i as int)
                    .push(self.body@[i as int]));
            }
            i = i + 1;
        }
        proof {
            assert(self.body@.subrange(0, n as int) =~= self.body@);
        }
        let pad = pad_length(len32);
        let mut j: u32 = 0;
        while j < pad
            invariant
                j <= pad,
                n == self.body@.len(),
                buf@ == base + be_bytes(n as int) + self.body@
                    + zero_bytes(j as int),
            decreases pad - j,
        {
            buf.push(0u8);
            proof {
                assert(zero_bytes(j + 1) =~= zero_bytes(j as int)
                    .push(0u8));
            }
            j = j + 1;
        }
        proof {
            assert(buf@ =~= base + spec_frame(self@));
        }
        Ok(())
    }

    fn serialised_len(&self) -> (n: u32) {
        proof {
            lemma_pad_bounds(self.body@.len() as int);
        }
        let len32 = self.body.len() as u32;
        len32 + pad_length(len32)
    }
}

} // verus!
