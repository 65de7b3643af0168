//! Primitive field codec: a forward-only cursor over a byte slice, reading
//! fixed-width little-endian integers, and the matching append-only writers.
//! A short read is fatal at this layer: the cursor reports `Truncated` and
//! does not move.
use vstd::prelude::*;

use crate::DecodeError;
use vstd::bytes::spec_u16_from_le_bytes;
use vstd::bytes::spec_u16_to_le_bytes;
use vstd::bytes::spec_u32_from_le_bytes;
use vstd::bytes::spec_u32_to_le_bytes;
use vstd::bytes::spec_u64_from_le_bytes;
use vstd::bytes::spec_u64_to_le_bytes;
use vstd::bytes::u16_from_le_bytes;
use vstd::bytes::u16_to_le_bytes;
use vstd::bytes::u32_from_le_bytes;
use vstd::bytes::u32_to_le_bytes;
use vstd::bytes::u64_from_le_bytes;
use vstd::bytes::u64_to_le_bytes;
use vstd::slice::slice_index_get;
use vstd::slice::slice_subrange;

verus! {

/// The 16-bit little-endian integer at offset `p` of `s`.
pub open spec fn le16_at(s: Seq<u8>, p: int) -> u16 {
    spec_u16_from_le_bytes(s.subrange(p, p + 2))
}

/// The 32-bit little-endian integer at offset `p` of `s`.
pub open spec fn le32_at(s: Seq<u8>, p: int) -> u32 {
    spec_u32_from_le_bytes(s.subrange(p, p + 4))
}

/// The 64-bit little-endian integer at offset `p` of `s`.
pub open spec fn le64_at(s: Seq<u8>, p: int) -> u64 {
    spec_u64_from_le_bytes(s.subrange(p, p + 8))
}

/// A forward-only cursor over a byte source. One logical cursor advances
/// strictly forward; every read either completes from the available bytes or
/// fails without moving.
pub struct Reader<'a> {
    data: &'a [u8],
    pos: usize,
}

impl<'a> Reader<'a> {
    /// The whole byte source the cursor walks.
    pub closed spec fn bytes(self) -> Seq<u8> {
        self.data@
    }

    /// The current offset into the source.
    pub closed spec fn position(self) -> int {
        self.pos as int
    }

    /// The cursor never stands past the end of its source, whose size is a
    /// machine length.
    pub open spec fn wf(self) -> bool {
        0 <= self.position() <= self.bytes().len() <= usize::MAX
    }

    /// Open a cursor at the start of a byte source.
    pub fn new(data: &'a [u8]) -> (r: Reader<'a>)
        ensures
            r.bytes() == data@,
            r.position() == 0,
            r.wf(),
    {
        let _len = data.len();  // a slice is never longer than a machine word counts
        Reader { data, pos: 0 }
    }

    /// The current offset, as a machine integer.
    pub fn pos(&self) -> (n: usize)
        ensures
            n == self.position(),
    {
        self.pos
    }

    /// How many bytes remain to be read.
    pub fn remaining(&self) -> (n: usize)
        requires
            self.wf(),
        ensures
            n == self.bytes().len() - self.position(),
    {
        self.data.len() - self.pos
    }

    /// Read one byte.
    pub fn read_u8(&mut self) -> (r: Result<u8, DecodeError>)
        requires
            old(self).wf(),
        ensures
            final(self).bytes() == old(self).bytes(),
            final(self).wf(),
            match r {
                Ok(v) => {
                    &&& old(self).position() + 1 <= old(self).bytes().len()
                    &&& final(self).position() == old(self).position() + 1
                    &&& v == old(self).bytes()[old(self).position()]
                },
                Err(e) => {
                    &&& e == DecodeError::Truncated
                    &&& old(self).position() + 1 > old(self).bytes().len()
                    &&& final(self).position() == old(self).position()
                },
            },
    {
        if self.pos < self.data.len() {
            let v = *slice_subrange(self.data, self.pos, self.pos + 1)
                .first()
                .unwrap();
            self.pos = self.pos + 1;
            Ok(v)
        } else {
            Err(DecodeError::Truncated)
        }
    }

    /// Read one byte as a signed value (two's complement).
    pub fn read_i8(&mut self) -> (r: Result<i8, DecodeError>)
        requires
            old(self).wf(),
        ensures
            final(self).bytes() == old(self).bytes(),
            final(self).wf(),
            match r {
                Ok(v) => {
                    &&& old(self).position() + 1 <= old(self).bytes().len()
                    &&& final(self).position() == old(self).position() + 1
                    &&& v == old(self).bytes()[old(self).position()] as i8
                },
                Err(e) => {
                    &&& e == DecodeError::Truncated
                    &&& old(self).position() + 1 > old(self).bytes().len()
                    &&& final(self).position() == old(self).position()
                },
            },
    {
        match self.read_u8() {
            Ok(v) => Ok(v as i8),
            Err(e) => Err(e),
        }
    }

    /// Read a 16-bit little-endian integer.
    pub fn read_u16_le(&mut self) -> (r: Result<u16, DecodeError>)
        requires
            old(self).wf(),
        ensures
            final(self).bytes() == old(self).bytes(),
            final(self).wf(),
            match r {
                Ok(v) => {
                    &&& old(self).position() + 2 <= old(self).bytes().len()
                    &&& final(self).position() == old(self).position() + 2
                    &&& v == le16_at(old(self).bytes(), old(self).position())
                },
                Err(e) => {
                    &&& e == DecodeError::Truncated
                    &&& old(self).position() + 2 > old(self).bytes().len()
                    &&& final(self).position() == old(self).position()
                },
            },
    {
        if self.data.len() - self.pos >= 2 {
            let v = u16_from_le_bytes(slice_subrange(self.data, self.pos, self.pos + 2));
            self.pos = self.pos + 2;
            Ok(v)
        } else {
            Err(DecodeError::Truncated)
        }
    }

    /// Read a 32-bit little-endian integer.
    pub fn read_u32_le(&mut self) -> (r: Result<u32, DecodeError>)
        requires
            old(self).wf(),
        ensures
            final(self).bytes() == old(self).bytes(),
            final(self).wf(),
            match r {
                Ok(v) => {
                    &&& old(self).position() + 4 <= old(self).bytes().len()
                    &&& final(self).position() == old(self).position() + 4
                    &&& v == le32_at(old(self).bytes(), old(self).position())
                },
                Err(e) => {
                    &&& e == DecodeError::Truncated
                    &&& old(self).position() + 4 > old(self).bytes().len()
                    &&& final(self).position() == old(self).position()
                },
            },
    {
        if self.data.len() - self.pos >= 4 {
            let v = u32_from_le_bytes(slice_subrange(self.data, self.pos, self.pos + 4));
            self.pos = self.pos + 4;
            Ok(v)
        } else {
            Err(DecodeError::Truncated)
        }
    }

    /// Read a 64-bit little-endian integer.
    pub fn read_u64_le(&mut self) -> (r: Result<u64, DecodeError>)
        requires
            old(self).wf(),
        ensures
            final(self).bytes() == old(self).bytes(),
            final(self).wf(),
            match r {
                Ok(v) => {
                    &&& old(self).position() + 8 <= old(self).bytes().len()
                    &&& final(self).position() == old(self).position() + 8
                    &&& v == le64_at(old(self).bytes(), old(self).position())
                },
                Err(e) => {
                    &&& e == DecodeError::Truncated
                    &&& old(self).position() + 8 > old(self).bytes().len()
                    &&& final(self).position() == old(self).position()
                },
            },
    {
        if self.data.len() - self.pos >= 8 {
            let v = u64_from_le_bytes(slice_subrange(self.data, self.pos, self.pos + 8));
            self.pos = self.pos + 8;
            Ok(v)
        } else {
            Err(DecodeError::Truncated)
        }
    }

    /// Skip `n` bytes without interpreting them.
    pub fn skip(&mut self, n: usize) -> (r: Result<(), DecodeError>)
        requires
            old(self).wf(),
        ensures
            final(self).bytes() == old(self).bytes(),
            final(self).wf(),
            match r {
                Ok(()) => {
                    &&& old(self).position() + n <= old(self).bytes().len()
                    &&& final(self).position() == old(self).position() + n
                },
                Err(e) => {
                    &&& e == DecodeError::Truncated
                    &&& old(self).position() + n > old(self).bytes().len()
                    &&& final(self).position() == old(self).position()
                },
            },
    {
        if self.data.len() - self.pos >= n {
            self.pos = self.pos + n;
            Ok(())
        } else {
            Err(DecodeError::Truncated)
        }
    }

    /// Read `n` bytes into a fresh vector.
    pub fn read_bytes(&mut self, n: usize) -> (r: Result<Vec<u8>, DecodeError>)
        requires
            old(self).wf(),
        ensures
            final(self).bytes() == old(self).bytes(),
            final(self).wf(),
            match r {
                Ok(v) => {
                    &&& old(self).position() + n <= old(self).bytes().len()
                    &&& final(self).position() == old(self).position() + n
                    &&& v@ == old(self).bytes().subrange(
                        old(self).position(),
                        old(self).position() + n,
                    )
                },
                Err(e) => {
                    &&& e == DecodeError::Truncated
                    &&& old(self).position() + n > old(self).bytes().len()
                    &&& final(self).position() == old(self).position()
                },
            },
    {
        if self.data.len() - self.pos >= n {
            let mut v: Vec<u8> = Vec::new();
            let mut i: usize = 0;
            while i < n
                invariant
                    i <= n,
                    self.pos + n <= self.data@.len(),
                    self.data@.len() <= usize::MAX,
                    v@ == self.data@.subrange(self.pos as int, self.pos + i as int),
                decreases n - i,
            {
                v.push(*slice_index_get(self.data, self.pos + i));
                proof {
                    assert(v@ =~= self.data@.subrange(self.pos as int, self.pos + (i + 1) as int));
                }
                i = i + 1;
            }
            self.pos = self.pos + n;
            Ok(v)
        } else {
            Err(DecodeError::Truncated)
        }
    }

    /// Borrow the bytes from `from` to `to` of the source.
    pub fn subslice(&self, from: usize, to: usize) -> (r: &'a [u8])
        requires
            from <= to <= self.bytes().len(),
        ensures
            r@ == self.bytes().subrange(from as int, to as int),
    {
        slice_subrange(self.data, from, to)
    }

    /// Move the cursor to an absolute offset.
    pub fn seek(&mut self, to: usize)
        requires
            old(self).wf(),
            old(self).position() <= to <= old(self).bytes().len(),
        ensures
            final(self).bytes() == old(self).bytes(),
            final(self).wf(),
            final(self).position() == to,
    {
        self.pos = to;
    }
}

/// Append one byte.
pub fn write_u8(out: &mut Vec<u8>, v: u8)
    ensures
        final(out)@ == old(out)@.push(v),
{
    out.push(v);
}

/// Append one byte holding a signed value (two's complement).
pub fn write_i8(out: &mut Vec<u8>, v: i8)
    ensures
        final(out)@ == old(out)@.push(v as u8),
{
    out.push(v as u8);
}

/// Append a 16-bit integer, little-endian.
pub fn write_u16_le(out: &mut Vec<u8>, v: u16)
    ensures
        final(out)@ == old(out)@ + spec_u16_to_le_bytes(v),
{
    let mut b = u16_to_le_bytes(v);
    out.append(&mut b);
}

/// Append a 32-bit integer, little-endian.
pub fn write_u32_le(out: &mut Vec<u8>, v: u32)
    ensures
        final(out)@ == old(out)@ + spec_u32_to_le_bytes(v),
{
    let mut b = u32_to_le_bytes(v);
    out.append(&mut b);
}

/// Append a 64-bit integer, little-endian.
pub fn write_u64_le(out: &mut Vec<u8>, v: u64)
    ensures
        final(out)@ == old(out)@ + spec_u64_to_le_bytes(v),
{
    let mut b = u64_to_le_bytes(v);
    out.append(&mut b);
}

/// Append `n` zero bytes (wire padding).
pub fn write_zeros(out: &mut Vec<u8>, n: usize)
    ensures
        final(out)@ == old(out)@ + zero_bytes(n as int),
{
    let mut i: usize = 0;
    while i < n
        invariant
            i <= n,
            out@ == old(out)@ + zero_bytes(i as int),
        decreases n - i,
    {
        out.push(0);
        proof {
            assert(out@ =~= old(out)@ + zero_bytes(i + 1 as int));
        }
        i = i + 1;
    }
}

/// A run of `n` zero bytes.
pub open spec fn zero_bytes(n: int) -> Seq<u8> {
    Seq::new(n as nat, |j: int| 0u8)
}

/// When `w` stands embedded in `s` at offset `p`, the bytes of any field of
/// `w` can be taken from `s` instead.
pub proof fn lemma_field_bytes(s: Seq<u8>, p: int, w: Seq<u8>, a: int, b: int)
    requires
        0 <= p,
        p + w.len() <= s.len(),
        s.subrange(p, p + w.len() as int) == w,
        0 <= a <= b <= w.len(),
    ensures
        s.subrange(p + a, p + b) == w.subrange(a, b),
{
    let ww = s.subrange(p, p + w.len() as int);
    assert(ww.subrange(a, b) =~= s.subrange(p + a, p + b));
}

/// When `w` stands embedded in `s` at offset `p`, byte `k` of `w` stands at
/// `p + k` of `s`.
pub proof fn lemma_byte_at(s: Seq<u8>, p: int, w: Seq<u8>, k: int)
    requires
        0 <= p,
        p + w.len() <= s.len(),
        s.subrange(p, p + w.len() as int) == w,
        0 <= k < w.len(),
    ensures
        s[p + k] == w[k],
{
    let ww = s.subrange(p, p + w.len() as int);
    assert(ww[k] == s[p + k]);
}

} // verus!
