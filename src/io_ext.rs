//! A seekable in-memory byte stream, and fixed-width integer reads and writes on it.

use vstd::prelude::*;

use crate::error::{bad_seek, short_read, Error, IoError};

verus! {

/// Where a seek is measured from.
#[derive(Clone, Copy, Debug, PartialEq, Eq, Structural)]
pub enum SeekFrom {
    /// An absolute position.
    Start(u64),

    /// A distance from the end of the stream.
    End(i64),

    /// A distance from the current position.
    Current(i64),
}

/// A byte stream held in memory, with a position that reads and writes advance.
///
/// Reading past the end fails. Writing overwrites the bytes at the position and extends the
/// stream where it runs past the end; a gap between the end and the position is filled with
/// zeros.
pub struct ByteCursor {
    /// The bytes of the stream.
    pub data: Vec<u8>,

    /// The position of the next read or write.
    pub pos: u64,
}

/// The bytes `d` after writing `b` at position `p`; an empty write changes nothing.
pub open spec fn overwrite(d: Seq<u8>, p: nat, b: Seq<u8>) -> Seq<u8> {
    let n: nat = if b.len() > 0 && p + b.len() > d.len() { p + b.len() } else { d.len() };
    Seq::new(
        n,
        |i: int|
            if p <= i < p + b.len() {
                b[i - p]
            } else if i < d.len() {
                d[i]
            } else {
                0u8
            },
    )
}

/// The position that a seek moves to, if it lies in the representable range.
pub open spec fn seek_target(len: nat, pos: nat, from: SeekFrom) -> Option<nat> {
    let t: int = match from {
        SeekFrom::Start(o) => o as int,
        SeekFrom::End(o) => len + o,
        SeekFrom::Current(o) => pos + o,
    };
    if 0 <= t <= u64::MAX {
        Some(t as nat)
    } else {
        None
    }
}

/// Writing `a` and then `b` right after it writes `a + b`.
pub proof fn lemma_overwrite_concat(d: Seq<u8>, p: nat, a: Seq<u8>, b: Seq<u8>)
    ensures
        overwrite(overwrite(d, p, a), p + a.len(), b) =~= overwrite(d, p, a + b),
{
}

/// Writing at the end of a stream appends.
pub broadcast proof fn lemma_overwrite_at_end(d: Seq<u8>, b: Seq<u8>)
    ensures
        #[trigger] overwrite(d, d.len(), b) == d + b,
{
    assert(overwrite(d, d.len(), b) =~= d + b);
}

/// After a write inside the stream, the written range holds the bytes written.
pub proof fn lemma_overwrite_written(d: Seq<u8>, p: nat, b: Seq<u8>)
    requires
        p + b.len() <= d.len(),
    ensures
        overwrite(d, p, b).subrange(p as int, (p + b.len()) as int) == b,
{
    assert(overwrite(d, p, b).subrange(p as int, (p + b.len()) as int) =~= b);
}

/// Writing the bytes that are already there changes nothing.
pub proof fn lemma_overwrite_same(d: Seq<u8>, p: nat, b: Seq<u8>)
    requires
        p + b.len() <= d.len(),
        d.subrange(p as int, (p + b.len()) as int) == b,
    ensures
        overwrite(d, p, b) == d,
{
    assert forall|i: int| p <= i < p + b.len() implies d[i] == b[i - p] by {
        assert(d[i] == d.subrange(p as int, (p + b.len()) as int)[i - p]);
    }
    assert(overwrite(d, p, b) =~= d);
}

/// A second write over the same range hides the first.
pub proof fn lemma_overwrite_twice(d: Seq<u8>, p: nat, a: Seq<u8>, b: Seq<u8>)
    requires
        p + a.len() <= d.len(),
        a.len() == b.len(),
    ensures
        overwrite(overwrite(d, p, a), p, b) == overwrite(d, p, b),
{
    assert(overwrite(overwrite(d, p, a), p, b) =~= overwrite(d, p, b));
}

/// Writing into the stream's range keeps its length.
pub proof fn lemma_overwrite_len(d: Seq<u8>, p: nat, b: Seq<u8>)
    requires
        p + b.len() <= d.len(),
    ensures
        overwrite(d, p, b).len() == d.len(),
{
}

/// The byte at `p`, read as an unsigned 8-bit integer.
pub open spec fn byte_at(d: Seq<u8>, p: int) -> u8 {
    d[p]
}

/// The unsigned 16-bit integer stored at `p` in little-endian byte order.
pub open spec fn le16(d: Seq<u8>, p: int) -> u16 {
    (d[p] as u16) | ((d[p + 1] as u16) << 8)
}

/// The unsigned 16-bit integer stored at `p` in big-endian byte order.
pub open spec fn be16(d: Seq<u8>, p: int) -> u16 {
    ((d[p] as u16) << 8) | (d[p + 1] as u16)
}

/// The little-endian bytes of an unsigned 16-bit integer.
pub open spec fn le16_bytes(v: u16) -> Seq<u8> {
    seq![v as u8, (v >> 8) as u8]
}

/// The big-endian bytes of an unsigned 16-bit integer.
pub open spec fn be16_bytes(v: u16) -> Seq<u8> {
    seq![(v >> 8) as u8, v as u8]
}

/// The unsigned 32-bit integer stored at `p` in little-endian byte order.
pub open spec fn le32(d: Seq<u8>, p: int) -> u32 {
    (d[p] as u32) | ((d[p + 1] as u32) << 8) | ((d[p + 2] as u32) << 16) | ((d[p + 3] as u32) << 24)
}

/// The unsigned 32-bit integer stored at `p` in big-endian byte order.
pub open spec fn be32(d: Seq<u8>, p: int) -> u32 {
    ((d[p] as u32) << 24) | ((d[p + 1] as u32) << 16) | ((d[p + 2] as u32) << 8) | (d[p + 3] as u32)
}

/// The little-endian bytes of an unsigned 32-bit integer.
pub open spec fn le32_bytes(v: u32) -> Seq<u8> {
    seq![v as u8, (v >> 8) as u8, (v >> 16) as u8, (v >> 24) as u8]
}

/// The big-endian bytes of an unsigned 32-bit integer.
pub open spec fn be32_bytes(v: u32) -> Seq<u8> {
    seq![(v >> 24) as u8, (v >> 16) as u8, (v >> 8) as u8, v as u8]
}

/// The unsigned 64-bit integer stored at `p` in little-endian byte order.
pub open spec fn le64(d: Seq<u8>, p: int) -> u64 {
    (d[p] as u64)
        | ((d[p + 1] as u64) << 8)
        | ((d[p + 2] as u64) << 16)
        | ((d[p + 3] as u64) << 24)
        | ((d[p + 4] as u64) << 32)
        | ((d[p + 5] as u64) << 40)
        | ((d[p + 6] as u64) << 48)
        | ((d[p + 7] as u64) << 56)
}

/// The unsigned 64-bit integer stored at `p` in big-endian byte order.
pub open spec fn be64(d: Seq<u8>, p: int) -> u64 {
    ((d[p] as u64) << 56)
        | ((d[p + 1] as u64) << 48)
        | ((d[p + 2] as u64) << 40)
        | ((d[p + 3] as u64) << 32)
        | ((d[p + 4] as u64) << 24)
        | ((d[p + 5] as u64) << 16)
        | ((d[p + 6] as u64) << 8)
        | (d[p + 7] as u64)
}

/// The little-endian bytes of an unsigned 64-bit integer.
pub open spec fn le64_bytes(v: u64) -> Seq<u8> {
    seq![
        v as u8, (v >> 8) as u8, (v >> 16) as u8, (v >> 24) as u8,
        (v >> 32) as u8, (v >> 40) as u8, (v >> 48) as u8, (v >> 56) as u8,
    ]
}

/// The big-endian bytes of an unsigned 64-bit integer.
pub open spec fn be64_bytes(v: u64) -> Seq<u8> {
    seq![
        (v >> 56) as u8, (v >> 48) as u8, (v >> 40) as u8, (v >> 32) as u8,
        (v >> 24) as u8, (v >> 16) as u8, (v >> 8) as u8, v as u8,
    ]
}

/// The unsigned 128-bit integer stored at `p` in little-endian byte order.
pub open spec fn le128(d: Seq<u8>, p: int) -> u128 {
    (d[p] as u128)
        | ((d[p + 1] as u128) << 8)
        | ((d[p + 2] as u128) << 16)
        | ((d[p + 3] as u128) << 24)
        | ((d[p + 4] as u128) << 32)
        | ((d[p + 5] as u128) << 40)
        | ((d[p + 6] as u128) << 48)
        | ((d[p + 7] as u128) << 56)
        | ((d[p + 8] as u128) << 64)
        | ((d[p + 9] as u128) << 72)
        | ((d[p + 10] as u128) << 80)
        | ((d[p + 11] as u128) << 88)
        | ((d[p + 12] as u128) << 96)
        | ((d[p + 13] as u128) << 104)
        | ((d[p + 14] as u128) << 112)
        | ((d[p + 15] as u128) << 120)
}

/// The unsigned 128-bit integer stored at `p` in big-endian byte order.
pub open spec fn be128(d: Seq<u8>, p: int) -> u128 {
    ((d[p] as u128) << 120)
        | ((d[p + 1] as u128) << 112)
        | ((d[p + 2] as u128) << 104)
        | ((d[p + 3] as u128) << 96)
        | ((d[p + 4] as u128) << 88)
        | ((d[p + 5] as u128) << 80)
        | ((d[p + 6] as u128) << 72)
        | ((d[p + 7] as u128) << 64)
        | ((d[p + 8] as u128) << 56)
        | ((d[p + 9] as u128) << 48)
        | ((d[p + 10] as u128) << 40)
        | ((d[p + 11] as u128) << 32)
        | ((d[p + 12] as u128) << 24)
        | ((d[p + 13] as u128) << 16)
        | ((d[p + 14] as u128) << 8)
        | (d[p + 15] as u128)
}

/// The little-endian bytes of an unsigned 128-bit integer.
pub open spec fn le128_bytes(v: u128) -> Seq<u8> {
    seq![
        v as u8, (v >> 8) as u8, (v >> 16) as u8, (v >> 24) as u8,
        (v >> 32) as u8, (v >> 40) as u8, (v >> 48) as u8, (v >> 56) as u8,
        (v >> 64) as u8, (v >> 72) as u8, (v >> 80) as u8, (v >> 88) as u8,
        (v >> 96) as u8, (v >> 104) as u8, (v >> 112) as u8, (v >> 120) as u8,
    ]
}

/// The big-endian bytes of an unsigned 128-bit integer.
pub open spec fn be128_bytes(v: u128) -> Seq<u8> {
    seq![
        (v >> 120) as u8, (v >> 112) as u8, (v >> 104) as u8, (v >> 96) as u8,
        (v >> 88) as u8, (v >> 80) as u8, (v >> 72) as u8, (v >> 64) as u8,
        (v >> 56) as u8, (v >> 48) as u8, (v >> 40) as u8, (v >> 32) as u8,
        (v >> 24) as u8, (v >> 16) as u8, (v >> 8) as u8, v as u8,
    ]
}

/// Reading back the little-endian bytes of a 16-bit integer gives the integer.
pub proof fn lemma_le16_round_trip(d: Seq<u8>, p: int, v: u16)
    requires
        0 <= p,
        p + 2 <= d.len(),
        d.subrange(p, p + 2) == le16_bytes(v),
    ensures
        le16(d, p) == v,
{
    assert(d[p] == d.subrange(p, p + 2)[0]);
    assert(d[p + 1] == d.subrange(p, p + 2)[1]);
    let (b0, b1) = (d[p], d[p + 1]);
    assert((b0 as u16)
            | ((b1 as u16) << 8) == v) by (bit_vector)
        requires
            b0 == v as u8,
            b1 == (v >> 8) as u8,
    ;
}

/// The little-endian bytes of a 16-bit integer read from a stream are the bytes it was read from.
pub proof fn lemma_le16_bytes_of_read(d: Seq<u8>, p: int)
    requires
        0 <= p,
        p + 2 <= d.len(),
    ensures
        le16_bytes(le16(d, p)) == d.subrange(p, p + 2),
{
    let (b0, b1) = (d[p], d[p + 1]);
    let v = le16(d, p);
    assert(v as u8 == b0 && (v >> 8) as u8 == b1) by (bit_vector)
        requires
            v == (b0 as u16) | ((b1 as u16) << 8),
    ;
    assert(le16_bytes(v) =~= d.subrange(p, p + 2));
}

/// The little-endian bytes of a 32-bit integer read from a stream are the bytes it was read from.
pub proof fn lemma_le32_bytes_of_read(d: Seq<u8>, p: int)
    requires
        0 <= p,
        p + 4 <= d.len(),
    ensures
        le32_bytes(le32(d, p)) == d.subrange(p, p + 4),
{
    let (b0, b1, b2, b3) = (d[p], d[p + 1], d[p + 2], d[p + 3]);
    let v = le32(d, p);
    assert(v as u8 == b0 && (v >> 8) as u8 == b1 && (v >> 16) as u8 == b2 && (v >> 24) as u8 == b3)
        by (bit_vector)
        requires
            v == (b0 as u32) | ((b1 as u32) << 8) | ((b2 as u32) << 16) | ((b3 as u32) << 24),
    ;
    assert(le32_bytes(v) =~= d.subrange(p, p + 4));
}

/// Reading back the little-endian bytes of a 32-bit integer gives the integer.
pub proof fn lemma_le32_round_trip(d: Seq<u8>, p: int, v: u32)
    requires
        0 <= p,
        p + 4 <= d.len(),
        d.subrange(p, p + 4) == le32_bytes(v),
    ensures
        le32(d, p) == v,
{
    assert(d[p] == d.subrange(p, p + 4)[0]);
    assert(d[p + 1] == d.subrange(p, p + 4)[1]);
    assert(d[p + 2] == d.subrange(p, p + 4)[2]);
    assert(d[p + 3] == d.subrange(p, p + 4)[3]);
    let (b0, b1, b2, b3) = (d[p], d[p + 1], d[p + 2], d[p + 3]);
    assert((b0 as u32)
            | ((b1 as u32) << 8)
            | ((b2 as u32) << 16)
            | ((b3 as u32) << 24) == v) by (bit_vector)
        requires
            b0 == v as u8,
            b1 == (v >> 8) as u8,
            b2 == (v >> 16) as u8,
            b3 == (v >> 24) as u8,
    ;
}

/// Reading back the little-endian bytes of a 64-bit integer gives the integer.
pub proof fn lemma_le64_round_trip(d: Seq<u8>, p: int, v: u64)
    requires
        0 <= p,
        p + 8 <= d.len(),
        d.subrange(p, p + 8) == le64_bytes(v),
    ensures
        le64(d, p) == v,
{
    assert(d[p] == d.subrange(p, p + 8)[0]);
    assert(d[p + 1] == d.subrange(p, p + 8)[1]);
    assert(d[p + 2] == d.subrange(p, p + 8)[2]);
    assert(d[p + 3] == d.subrange(p, p + 8)[3]);
    assert(d[p + 4] == d.subrange(p, p + 8)[4]);
    assert(d[p + 5] == d.subrange(p, p + 8)[5]);
    assert(d[p + 6] == d.subrange(p, p + 8)[6]);
    assert(d[p + 7] == d.subrange(p, p + 8)[7]);
    let (b0, b1, b2, b3, b4, b5, b6, b7) = (d[p], d[p + 1], d[p + 2], d[p + 3], d[p + 4], d[p + 5], d[p + 6], d[p + 7]);
    assert((b0 as u64)
            | ((b1 as u64) << 8)
            | ((b2 as u64) << 16)
            | ((b3 as u64) << 24)
            | ((b4 as u64) << 32)
            | ((b5 as u64) << 40)
            | ((b6 as u64) << 48)
            | ((b7 as u64) << 56) == v) by (bit_vector)
        requires
            b0 == v as u8,
            b1 == (v >> 8) as u8,
            b2 == (v >> 16) as u8,
            b3 == (v >> 24) as u8,
            b4 == (v >> 32) as u8,
            b5 == (v >> 40) as u8,
            b6 == (v >> 48) as u8,
            b7 == (v >> 56) as u8,
    ;
}

impl ByteCursor {
    /// Whether `n` bytes can be read at the position.
    pub open spec fn fits(self, n: nat) -> bool {
        self.pos + n <= self.data@.len()
    }

    /// A stream over `data`, positioned at its start.
    pub fn new(data: Vec<u8>) -> (r: ByteCursor)
        ensures
            r.data@ == data@,
            r.pos == 0,
    {
        ByteCursor { data, pos: 0 }
    }

    /// The bytes of the stream.
    pub fn into_inner(self) -> (r: Vec<u8>)
        ensures
            r@ == self.data@,
    {
        self.data
    }

    /// The current position.
    pub fn stream_position(&self) -> (r: u64)
        ensures
            r == self.pos,
    {
        self.pos
    }

    /// Moves the position; fails, leaving it unchanged, where the target is out of range.
    pub fn seek(&mut self, from: SeekFrom) -> (r: Result<u64, Error>)
        ensures
            final(self).data@ == old(self).data@,
            match seek_target(old(self).data@.len(), old(self).pos as nat, from) {
                Some(t) => r == Ok::<u64, Error>(t as u64) && final(self).pos == t,
                None => r == Err::<u64, Error>(bad_seek()) && final(self).pos == old(self).pos,
            },
    {
        let t: i128 = match from {
            SeekFrom::Start(o) => o as i128,
            SeekFrom::End(o) => self.data.len() as i128 + o as i128,
            SeekFrom::Current(o) => self.pos as i128 + o as i128,
        };
        if 0 <= t && t <= u64::MAX as i128 {
            self.pos = t as u64;
            Ok(t as u64)
        } else {
            Err(Error::Io(IoError::InvalidSeek))
        }
    }

    /// Checks that `n` bytes can be read, and returns the index of the first.
    fn start_read(&self, n: u64) -> (r: Result<usize, Error>)
        ensures
            self.fits(n as nat) ==> r is Ok && r->Ok_0 == self.pos && self.pos + n <= usize::MAX,
            !self.fits(n as nat) ==> r == Err::<usize, Error>(short_read()),
    {
        let len = self.data.len() as u64;
        if self.pos <= len && len - self.pos >= n {
            Ok(self.pos as usize)
        } else {
            Err(Error::Io(IoError::UnexpectedEof))
        }
    }

    /// Moves the position forward over `n` bytes; fails, leaving it unchanged, where fewer
    /// remain.
    pub fn skip(&mut self, n: u64) -> (r: Result<(), Error>)
        ensures
            final(self).data@ == old(self).data@,
            old(self).fits(n as nat) ==> r == Ok::<(), Error>(()) && final(self).pos == old(self).pos
                + n,
            !old(self).fits(n as nat) ==> r == Err::<(), Error>(short_read()) && final(self).pos
                == old(self).pos,
    {
        match self.start_read(n) {
            Ok(_) => {
                self.pos = self.pos + n;
                Ok(())
            },
            Err(e) => Err(e),
        }
    }

    /// Reads `n` bytes.
    pub fn read_bytes(&mut self, n: u64) -> (r: Result<Vec<u8>, Error>)
        ensures
            final(self).data@ == old(self).data@,
            old(self).fits(n as nat) ==> r is Ok && r->Ok_0@ == old(self).data@.subrange(
                old(self).pos as int,
                old(self).pos + n,
            ) && final(self).pos == old(self).pos + n,
            !old(self).fits(n as nat) ==> r == Err::<Vec<u8>, Error>(short_read())
                && final(self).pos == old(self).pos,
    {
        let start = match self.start_read(n) {
            Ok(start) => start,
            Err(e) => return Err(e),
        };
        let count = n as usize;
        let mut out: Vec<u8> = Vec::with_capacity(count);
        let mut i: usize = 0;
        while i < count
            invariant
                self.fits(n as nat),
                self.pos + n <= usize::MAX,
                start == self.pos,
                count == n,
                i <= count,
                out@ =~= self.data@.subrange(start as int, start + i),
            decreases count - i,
        {
            out.push(self.data[start + i]);
            i += 1;
        }
        self.pos = self.pos + n;
        Ok(out)
    }

    /// Writes one byte.
    pub fn write_u8(&mut self, v: u8)
        requires
            old(self).pos < usize::MAX,
        ensures
            final(self).data@ == overwrite(old(self).data@, old(self).pos as nat, seq![v]),
            final(self).pos == old(self).pos + 1,
    {
        let ghost d = self.data@;
        let p = self.pos as usize;
        if p < self.data.len() {
            self.data.set(p, v);
        } else {
            while self.data.len() < p
                invariant
                    self.pos == p,
                    d.len() <= self.data@.len() <= p,
                    forall|i: int| 0 <= i < d.len() ==> self.data@[i] == d[i],
                    forall|i: int| d.len() <= i < self.data@.len() ==> self.data@[i] == 0u8,
                decreases p - self.data@.len(),
            {
                self.data.push(0);
            }
            self.data.push(v);
        }
        self.pos = self.pos + 1;
        assert(self.data@ =~= overwrite(d, p as nat, seq![v]));
    }

    /// Writes all of `b`.
    pub fn write_all(&mut self, b: &[u8])
        requires
            old(self).pos + b@.len() <= usize::MAX,
        ensures
            final(self).data@ == overwrite(old(self).data@, old(self).pos as nat, b@),
            final(self).pos == old(self).pos + b@.len(),
    {
        let ghost d = self.data@;
        let ghost p = self.pos as nat;
        let mut i: usize = 0;
        assert(overwrite(d, p, b@.subrange(0, 0)) =~= d);
        while i < b.len()
            invariant
                i <= b@.len(),
                p + b@.len() <= usize::MAX,
                self.pos == p + i,
                self.data@ == overwrite(d, p, b@.subrange(0, i as int)),
            decreases b@.len() - i,
        {
            proof {
                lemma_overwrite_concat(d, p, b@.subrange(0, i as int), seq![b@[i as int]]);
                assert(b@.subrange(0, i as int) + seq![b@[i as int]] =~= b@.subrange(0, i + 1));
            }
            self.write_u8(b[i]);
            i += 1;
        }
        assert(b@.subrange(0, i as int) =~= b@);
    }

    /// Reads an unsigned 8-bit integer.
    pub fn read_u8(&mut self) -> (r: Result<u8, Error>)
        ensures
            final(self).data@ == old(self).data@,
            old(self).fits(1) ==> r == Ok::<u8, Error>(byte_at(old(self).data@, old(self).pos as int))
                && final(self).pos == old(self).pos + 1,
            !old(self).fits(1) ==> r == Err::<u8, Error>(short_read()) && final(self).pos == old(self).pos,
    {
        let p = match self.start_read(1) {
            Ok(p) => p,
            Err(e) => return Err(e),
        };
        let v = self.data[p];
        self.pos = self.pos + 1;
        Ok(v)
    }

    /// Reads a signed 8-bit integer: the bits of an unsigned one, reinterpreted.
    pub fn read_i8(&mut self) -> (r: Result<i8, Error>)
        ensures
            final(self).data@ == old(self).data@,
            old(self).fits(1) ==> r == Ok::<i8, Error>(byte_at(old(self).data@, old(self).pos as int) as i8)
                && final(self).pos == old(self).pos + 1,
            !old(self).fits(1) ==> r == Err::<i8, Error>(short_read()) && final(self).pos == old(self).pos,
    {
        match self.read_u8() {
            Ok(v) => Ok(v as i8),
            Err(e) => Err(e),
        }
    }

    /// Reads an unsigned 16-bit integer in little-endian byte order.
    pub fn read_u16_le(&mut self) -> (r: Result<u16, Error>)
        ensures
            final(self).data@ == old(self).data@,
            old(self).fits(2) ==> r == Ok::<u16, Error>(le16(old(self).data@, old(self).pos as int))
                && final(self).pos == old(self).pos + 2,
            !old(self).fits(2) ==> r == Err::<u16, Error>(short_read()) && final(self).pos == old(self).pos,
    {
        let p = match self.start_read(2) {
            Ok(p) => p,
            Err(e) => return Err(e),
        };
        let v = (self.data[p] as u16) | ((self.data[p + 1] as u16) << 8);
        self.pos = self.pos + 2;
        Ok(v)
    }

    /// Reads a signed 16-bit integer in little-endian byte order: the bits of an unsigned one,
    /// reinterpreted.
    pub fn read_i16_le(&mut self) -> (r: Result<i16, Error>)
        ensures
            final(self).data@ == old(self).data@,
            old(self).fits(2) ==> r == Ok::<i16, Error>(le16(old(self).data@, old(self).pos as int) as i16)
                && final(self).pos == old(self).pos + 2,
            !old(self).fits(2) ==> r == Err::<i16, Error>(short_read()) && final(self).pos == old(self).pos,
    {
        match self.read_u16_le() {
            Ok(v) => Ok(v as i16),
            Err(e) => Err(e),
        }
    }

    /// Reads an unsigned 16-bit integer in big-endian byte order.
    pub fn read_u16_be(&mut self) -> (r: Result<u16, Error>)
        ensures
            final(self).data@ == old(self).data@,
            old(self).fits(2) ==> r == Ok::<u16, Error>(be16(old(self).data@, old(self).pos as int))
                && final(self).pos == old(self).pos + 2,
            !old(self).fits(2) ==> r == Err::<u16, Error>(short_read()) && final(self).pos == old(self).pos,
    {
        let p = match self.start_read(2) {
            Ok(p) => p,
            Err(e) => return Err(e),
        };
        let v = ((self.data[p] as u16) << 8) | (self.data[p + 1] as u16);
        self.pos = self.pos + 2;
        Ok(v)
    }

    /// Reads a signed 16-bit integer in big-endian byte order: the bits of an unsigned one,
    /// reinterpreted.
    pub fn read_i16_be(&mut self) -> (r: Result<i16, Error>)
        ensures
            final(self).data@ == old(self).data@,
            old(self).fits(2) ==> r == Ok::<i16, Error>(be16(old(self).data@, old(self).pos as int) as i16)
                && final(self).pos == old(self).pos + 2,
            !old(self).fits(2) ==> r == Err::<i16, Error>(short_read()) && final(self).pos == old(self).pos,
    {
        match self.read_u16_be() {
            Ok(v) => Ok(v as i16),
            Err(e) => Err(e),
        }
    }

    /// Reads an unsigned 32-bit integer in little-endian byte order.
    pub fn read_u32_le(&mut self) -> (r: Result<u32, Error>)
        ensures
            final(self).data@ == old(self).data@,
            old(self).fits(4) ==> r == Ok::<u32, Error>(le32(old(self).data@, old(self).pos as int))
                && final(self).pos == old(self).pos + 4,
            !old(self).fits(4) ==> r == Err::<u32, Error>(short_read()) && final(self).pos == old(self).pos,
    {
        let p = match self.start_read(4) {
            Ok(p) => p,
            Err(e) => return Err(e),
        };
        let v = (self.data[p] as u32)
            | ((self.data[p + 1] as u32) << 8)
            | ((self.data[p + 2] as u32) << 16)
            | ((self.data[p + 3] as u32) << 24);
        self.pos = self.pos + 4;
        Ok(v)
    }

    /// Reads a signed 32-bit integer in little-endian byte order: the bits of an unsigned one,
    /// reinterpreted.
    pub fn read_i32_le(&mut self) -> (r: Result<i32, Error>)
        ensures
            final(self).data@ == old(self).data@,
            old(self).fits(4) ==> r == Ok::<i32, Error>(le32(old(self).data@, old(self).pos as int) as i32)
                && final(self).pos == old(self).pos + 4,
            !old(self).fits(4) ==> r == Err::<i32, Error>(short_read()) && final(self).pos == old(self).pos,
    {
        match self.read_u32_le() {
            Ok(v) => Ok(v as i32),
            Err(e) => Err(e),
        }
    }

    /// Reads an unsigned 32-bit integer in big-endian byte order.
    pub fn read_u32_be(&mut self) -> (r: Result<u32, Error>)
        ensures
            final(self).data@ == old(self).data@,
            old(self).fits(4) ==> r == Ok::<u32, Error>(be32(old(self).data@, old(self).pos as int))
                && final(self).pos == old(self).pos + 4,
            !old(self).fits(4) ==> r == Err::<u32, Error>(short_read()) && final(self).pos == old(self).pos,
    {
        let p = match self.start_read(4) {
            Ok(p) => p,
            Err(e) => return Err(e),
        };
        let v = ((self.data[p] as u32) << 24)
            | ((self.data[p + 1] as u32) << 16)
            | ((self.data[p + 2] as u32) << 8)
            | (self.data[p + 3] as u32);
        self.pos = self.pos + 4;
        Ok(v)
    }

    /// Reads a signed 32-bit integer in big-endian byte order: the bits of an unsigned one,
    /// reinterpreted.
    pub fn read_i32_be(&mut self) -> (r: Result<i32, Error>)
        ensures
            final(self).data@ == old(self).data@,
            old(self).fits(4) ==> r == Ok::<i32, Error>(be32(old(self).data@, old(self).pos as int) as i32)
                && final(self).pos == old(self).pos + 4,
            !old(self).fits(4) ==> r == Err::<i32, Error>(short_read()) && final(self).pos == old(self).pos,
    {
        match self.read_u32_be() {
            Ok(v) => Ok(v as i32),
            Err(e) => Err(e),
        }
    }

    /// Reads an unsigned 64-bit integer in little-endian byte order.
    pub fn read_u64_le(&mut self) -> (r: Result<u64, Error>)
        ensures
            final(self).data@ == old(self).data@,
            old(self).fits(8) ==> r == Ok::<u64, Error>(le64(old(self).data@, old(self).pos as int))
                && final(self).pos == old(self).pos + 8,
            !old(self).fits(8) ==> r == Err::<u64, Error>(short_read()) && final(self).pos == old(self).pos,
    {
        let p = match self.start_read(8) {
            Ok(p) => p,
            Err(e) => return Err(e),
        };
        let v = (self.data[p] as u64)
            | ((self.data[p + 1] as u64) << 8)
            | ((self.data[p + 2] as u64) << 16)
            | ((self.data[p + 3] as u64) << 24)
            | ((self.data[p + 4] as u64) << 32)
            | ((self.data[p + 5] as u64) << 40)
            | ((self.data[p + 6] as u64) << 48)
            | ((self.data[p + 7] as u64) << 56);
        self.pos = self.pos + 8;
        Ok(v)
    }

    /// Reads a signed 64-bit integer in little-endian byte order: the bits of an unsigned one,
    /// reinterpreted.
    pub fn read_i64_le(&mut self) -> (r: Result<i64, Error>)
        ensures
            final(self).data@ == old(self).data@,
            old(self).fits(8) ==> r == Ok::<i64, Error>(le64(old(self).data@, old(self).pos as int) as i64)
                && final(self).pos == old(self).pos + 8,
            !old(self).fits(8) ==> r == Err::<i64, Error>(short_read()) && final(self).pos == old(self).pos,
    {
        match self.read_u64_le() {
            Ok(v) => Ok(v as i64),
            Err(e) => Err(e),
        }
    }

    /// Reads an unsigned 64-bit integer in big-endian byte order.
    pub fn read_u64_be(&mut self) -> (r: Result<u64, Error>)
        ensures
            final(self).data@ == old(self).data@,
            old(self).fits(8) ==> r == Ok::<u64, Error>(be64(old(self).data@, old(self).pos as int))
                && final(self).pos == old(self).pos + 8,
            !old(self).fits(8) ==> r == Err::<u64, Error>(short_read()) && final(self).pos == old(self).pos,
    {
        let p = match self.start_read(8) {
            Ok(p) => p,
            Err(e) => return Err(e),
        };
        let v = ((self.data[p] as u64) << 56)
            | ((self.data[p + 1] as u64) << 48)
            | ((self.data[p + 2] as u64) << 40)
            | ((self.data[p + 3] as u64) << 32)
            | ((self.data[p + 4] as u64) << 24)
            | ((self.data[p + 5] as u64) << 16)
            | ((self.data[p + 6] as u64) << 8)
            | (self.data[p + 7] as u64);
        self.pos = self.pos + 8;
        Ok(v)
    }

    /// Reads a signed 64-bit integer in big-endian byte order: the bits of an unsigned one,
    /// reinterpreted.
    pub fn read_i64_be(&mut self) -> (r: Result<i64, Error>)
        ensures
            final(self).data@ == old(self).data@,
            old(self).fits(8) ==> r == Ok::<i64, Error>(be64(old(self).data@, old(self).pos as int) as i64)
                && final(self).pos == old(self).pos + 8,
            !old(self).fits(8) ==> r == Err::<i64, Error>(short_read()) && final(self).pos == old(self).pos,
    {
        match self.read_u64_be() {
            Ok(v) => Ok(v as i64),
            Err(e) => Err(e),
        }
    }

    /// Reads an unsigned 128-bit integer in little-endian byte order.
    pub fn read_u128_le(&mut self) -> (r: Result<u128, Error>)
        ensures
            final(self).data@ == old(self).data@,
            old(self).fits(16) ==> r == Ok::<u128, Error>(le128(old(self).data@, old(self).pos as int))
                && final(self).pos == old(self).pos + 16,
            !old(self).fits(16) ==> r == Err::<u128, Error>(short_read()) && final(self).pos == old(self).pos,
    {
        let p = match self.start_read(16) {
            Ok(p) => p,
            Err(e) => return Err(e),
        };
        let v = (self.data[p] as u128)
            | ((self.data[p + 1] as u128) << 8)
            | ((self.data[p + 2] as u128) << 16)
            | ((self.data[p + 3] as u128) << 24)
            | ((self.data[p + 4] as u128) << 32)
            | ((self.data[p + 5] as u128) << 40)
            | ((self.data[p + 6] as u128) << 48)
            | ((self.data[p + 7] as u128) << 56)
            | ((self.data[p + 8] as u128) << 64)
            | ((self.data[p + 9] as u128) << 72)
            | ((self.data[p + 10] as u128) << 80)
            | ((self.data[p + 11] as u128) << 88)
            | ((self.data[p + 12] as u128) << 96)
            | ((self.data[p + 13] as u128) << 104)
            | ((self.data[p + 14] as u128) << 112)
            | ((self.data[p + 15] as u128) << 120);
        self.pos = self.pos + 16;
        Ok(v)
    }

    /// Reads a signed 128-bit integer in little-endian byte order: the bits of an unsigned one,
    /// reinterpreted.
    pub fn read_i128_le(&mut self) -> (r: Result<i128, Error>)
        ensures
            final(self).data@ == old(self).data@,
            old(self).fits(16) ==> r == Ok::<i128, Error>(le128(old(self).data@, old(self).pos as int) as i128)
                && final(self).pos == old(self).pos + 16,
            !old(self).fits(16) ==> r == Err::<i128, Error>(short_read()) && final(self).pos == old(self).pos,
    {
        match self.read_u128_le() {
            Ok(v) => Ok(v as i128),
            Err(e) => Err(e),
        }
    }

    /// Reads an unsigned 128-bit integer in big-endian byte order.
    pub fn read_u128_be(&mut self) -> (r: Result<u128, Error>)
        ensures
            final(self).data@ == old(self).data@,
            old(self).fits(16) ==> r == Ok::<u128, Error>(be128(old(self).data@, old(self).pos as int))
                && final(self).pos == old(self).pos + 16,
            !old(self).fits(16) ==> r == Err::<u128, Error>(short_read()) && final(self).pos == old(self).pos,
    {
        let p = match self.start_read(16) {
            Ok(p) => p,
            Err(e) => return Err(e),
        };
        let v = ((self.data[p] as u128) << 120)
            | ((self.data[p + 1] as u128) << 112)
            | ((self.data[p + 2] as u128) << 104)
            | ((self.data[p + 3] as u128) << 96)
            | ((self.data[p + 4] as u128) << 88)
            | ((self.data[p + 5] as u128) << 80)
            | ((self.data[p + 6] as u128) << 72)
            | ((self.data[p + 7] as u128) << 64)
            | ((self.data[p + 8] as u128) << 56)
            | ((self.data[p + 9] as u128) << 48)
            | ((self.data[p + 10] as u128) << 40)
            | ((self.data[p + 11] as u128) << 32)
            | ((self.data[p + 12] as u128) << 24)
            | ((self.data[p + 13] as u128) << 16)
            | ((self.data[p + 14] as u128) << 8)
            | (self.data[p + 15] as u128);
        self.pos = self.pos + 16;
        Ok(v)
    }

    /// Reads a signed 128-bit integer in big-endian byte order: the bits of an unsigned one,
    /// reinterpreted.
    pub fn read_i128_be(&mut self) -> (r: Result<i128, Error>)
        ensures
            final(self).data@ == old(self).data@,
            old(self).fits(16) ==> r == Ok::<i128, Error>(be128(old(self).data@, old(self).pos as int) as i128)
                && final(self).pos == old(self).pos + 16,
            !old(self).fits(16) ==> r == Err::<i128, Error>(short_read()) && final(self).pos == old(self).pos,
    {
        match self.read_u128_be() {
            Ok(v) => Ok(v as i128),
            Err(e) => Err(e),
        }
    }

    /// Writes a signed 8-bit integer: the bits of an unsigned one.
    pub fn write_i8(&mut self, v: i8)
        requires
            old(self).pos < usize::MAX,
        ensures
            final(self).data@ == overwrite(old(self).data@, old(self).pos as nat, seq![v as u8]),
            final(self).pos == old(self).pos + 1,
    {
        self.write_u8(v as u8);
    }

    /// Writes an unsigned 16-bit integer in little-endian byte order.
    pub fn write_u16_le(&mut self, v: u16)
        requires
            old(self).pos + 2 <= usize::MAX,
        ensures
            final(self).data@ == overwrite(old(self).data@, old(self).pos as nat, le16_bytes(v)),
            final(self).pos == old(self).pos + 2,
    {
        let mut b: Vec<u8> = Vec::with_capacity(2);
        b.push(v as u8);
        b.push((v >> 8) as u8);
        assert(b@ =~= le16_bytes(v));
        self.write_all(b.as_slice());
    }

    /// Writes a signed 16-bit integer in little-endian byte order: the bits of an unsigned one.
    pub fn write_i16_le(&mut self, v: i16)
        requires
            old(self).pos + 2 <= usize::MAX,
        ensures
            final(self).data@ == overwrite(old(self).data@, old(self).pos as nat, le16_bytes(v as u16)),
            final(self).pos == old(self).pos + 2,
    {
        self.write_u16_le(v as u16);
    }

    /// Writes an unsigned 16-bit integer in big-endian byte order.
    pub fn write_u16_be(&mut self, v: u16)
        requires
            old(self).pos + 2 <= usize::MAX,
        ensures
            final(self).data@ == overwrite(old(self).data@, old(self).pos as nat, be16_bytes(v)),
            final(self).pos == old(self).pos + 2,
    {
        let mut b: Vec<u8> = Vec::with_capacity(2);
        b.push((v >> 8) as u8);
        b.push(v as u8);
        assert(b@ =~= be16_bytes(v));
        self.write_all(b.as_slice());
    }

    /// Writes a signed 16-bit integer in big-endian byte order: the bits of an unsigned one.
    pub fn write_i16_be(&mut self, v: i16)
        requires
            old(self).pos + 2 <= usize::MAX,
        ensures
            final(self).data@ == overwrite(old(self).data@, old(self).pos as nat, be16_bytes(v as u16)),
            final(self).pos == old(self).pos + 2,
    {
        self.write_u16_be(v as u16);
    }

    /// Writes an unsigned 32-bit integer in little-endian byte order.
    pub fn write_u32_le(&mut self, v: u32)
        requires
            old(self).pos + 4 <= usize::MAX,
        ensures
            final(self).data@ == overwrite(old(self).data@, old(self).pos as nat, le32_bytes(v)),
            final(self).pos == old(self).pos + 4,
    {
        let mut b: Vec<u8> = Vec::with_capacity(4);
        b.push(v as u8);
        b.push((v >> 8) as u8);
        b.push((v >> 16) as u8);
        b.push((v >> 24) as u8);
        assert(b@ =~= le32_bytes(v));
        self.write_all(b.as_slice());
    }

    /// Writes a signed 32-bit integer in little-endian byte order: the bits of an unsigned one.
    pub fn write_i32_le(&mut self, v: i32)
        requires
            old(self).pos + 4 <= usize::MAX,
        ensures
            final(self).data@ == overwrite(old(self).data@, old(self).pos as nat, le32_bytes(v as u32)),
            final(self).pos == old(self).pos + 4,
    {
        self.write_u32_le(v as u32);
    }

    /// Writes an unsigned 32-bit integer in big-endian byte order.
    pub fn write_u32_be(&mut self, v: u32)
        requires
            old(self).pos + 4 <= usize::MAX,
        ensures
            final(self).data@ == overwrite(old(self).data@, old(self).pos as nat, be32_bytes(v)),
            final(self).pos == old(self).pos + 4,
    {
        let mut b: Vec<u8> = Vec::with_capacity(4);
        b.push((v >> 24) as u8);
        b.push((v >> 16) as u8);
        b.push((v >> 8) as u8);
        b.push(v as u8);
        assert(b@ =~= be32_bytes(v));
        self.write_all(b.as_slice());
    }

    /// Writes a signed 32-bit integer in big-endian byte order: the bits of an unsigned one.
    pub fn write_i32_be(&mut self, v: i32)
        requires
            old(self).pos + 4 <= usize::MAX,
        ensures
            final(self).data@ == overwrite(old(self).data@, old(self).pos as nat, be32_bytes(v as u32)),
            final(self).pos == old(self).pos + 4,
    {
        self.write_u32_be(v as u32);
    }

    /// Writes an unsigned 64-bit integer in little-endian byte order.
    pub fn write_u64_le(&mut self, v: u64)
        requires
            old(self).pos + 8 <= usize::MAX,
        ensures
            final(self).data@ == overwrite(old(self).data@, old(self).pos as nat, le64_bytes(v)),
            final(self).pos == old(self).pos + 8,
    {
        let mut b: Vec<u8> = Vec::with_capacity(8);
        b.push(v as u8);
        b.push((v >> 8) as u8);
        b.push((v >> 16) as u8);
        b.push((v >> 24) as u8);
        b.push((v >> 32) as u8);
        b.push((v >> 40) as u8);
        b.push((v >> 48) as u8);
        b.push((v >> 56) as u8);
        assert(b@ =~= le64_bytes(v));
        self.write_all(b.as_slice());
    }

    /// Writes a signed 64-bit integer in little-endian byte order: the bits of an unsigned one.
    pub fn write_i64_le(&mut self, v: i64)
        requires
            old(self).pos + 8 <= usize::MAX,
        ensures
            final(self).data@ == overwrite(old(self).data@, old(self).pos as nat, le64_bytes(v as u64)),
            final(self).pos == old(self).pos + 8,
    {
        self.write_u64_le(v as u64);
    }

    /// Writes an unsigned 64-bit integer in big-endian byte order.
    pub fn write_u64_be(&mut self, v: u64)
        requires
            old(self).pos + 8 <= usize::MAX,
        ensures
            final(self).data@ == overwrite(old(self).data@, old(self).pos as nat, be64_bytes(v)),
            final(self).pos == old(self).pos + 8,
    {
        let mut b: Vec<u8> = Vec::with_capacity(8);
        b.push((v >> 56) as u8);
        b.push((v >> 48) as u8);
        b.push((v >> 40) as u8);
        b.push((v >> 32) as u8);
        b.push((v >> 24) as u8);
        b.push((v >> 16) as u8);
        b.push((v >> 8) as u8);
        b.push(v as u8);
        assert(b@ =~= be64_bytes(v));
        self.write_all(b.as_slice());
    }

    /// Writes a signed 64-bit integer in big-endian byte order: the bits of an unsigned one.
    pub fn write_i64_be(&mut self, v: i64)
        requires
            old(self).pos + 8 <= usize::MAX,
        ensures
            final(self).data@ == overwrite(old(self).data@, old(self).pos as nat, be64_bytes(v as u64)),
            final(self).pos == old(self).pos + 8,
    {
        self.write_u64_be(v as u64);
    }

    /// Writes an unsigned 128-bit integer in little-endian byte order.
    pub fn write_u128_le(&mut self, v: u128)
        requires
            old(self).pos + 16 <= usize::MAX,
        ensures
            final(self).data@ == overwrite(old(self).data@, old(self).pos as nat, le128_bytes(v)),
            final(self).pos == old(self).pos + 16,
    {
        let mut b: Vec<u8> = Vec::with_capacity(16);
        b.push(v as u8);
        b.push((v >> 8) as u8);
        b.push((v >> 16) as u8);
        b.push((v >> 24) as u8);
        b.push((v >> 32) as u8);
        b.push((v >> 40) as u8);
        b.push((v >> 48) as u8);
        b.push((v >> 56) as u8);
        b.push((v >> 64) as u8);
        b.push((v >> 72) as u8);
        b.push((v >> 80) as u8);
        b.push((v >> 88) as u8);
        b.push((v >> 96) as u8);
        b.push((v >> 104) as u8);
        b.push((v >> 112) as u8);
        b.push((v >> 120) as u8);
        assert(b@ =~= le128_bytes(v));
        self.write_all(b.as_slice());
    }

    /// Writes a signed 128-bit integer in little-endian byte order: the bits of an unsigned one.
    pub fn write_i128_le(&mut self, v: i128)
        requires
            old(self).pos + 16 <= usize::MAX,
        ensures
            final(self).data@ == overwrite(old(self).data@, old(self).pos as nat, le128_bytes(v as u128)),
            final(self).pos == old(self).pos + 16,
    {
        self.write_u128_le(v as u128);
    }

    /// Writes an unsigned 128-bit integer in big-endian byte order.
    pub fn write_u128_be(&mut self, v: u128)
        requires
            old(self).pos + 16 <= usize::MAX,
        ensures
            final(self).data@ == overwrite(old(self).data@, old(self).pos as nat, be128_bytes(v)),
            final(self).pos == old(self).pos + 16,
    {
        let mut b: Vec<u8> = Vec::with_capacity(16);
        b.push((v >> 120) as u8);
        b.push((v >> 112) as u8);
        b.push((v >> 104) as u8);
        b.push((v >> 96) as u8);
        b.push((v >> 88) as u8);
        b.push((v >> 80) as u8);
        b.push((v >> 72) as u8);
        b.push((v >> 64) as u8);
        b.push((v >> 56) as u8);
        b.push((v >> 48) as u8);
        b.push((v >> 40) as u8);
        b.push((v >> 32) as u8);
        b.push((v >> 24) as u8);
        b.push((v >> 16) as u8);
        b.push((v >> 8) as u8);
        b.push(v as u8);
        assert(b@ =~= be128_bytes(v));
        self.write_all(b.as_slice());
    }

    /// Writes a signed 128-bit integer in big-endian byte order: the bits of an unsigned one.
    pub fn write_i128_be(&mut self, v: i128)
        requires
            old(self).pos + 16 <= usize::MAX,
        ensures
            final(self).data@ == overwrite(old(self).data@, old(self).pos as nat, be128_bytes(v as u128)),
            final(self).pos == old(self).pos + 16,
    {
        self.write_u128_be(v as u128);
    }
}

} // verus!
