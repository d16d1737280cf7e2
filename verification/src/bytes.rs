//! Little-endian numbers, length-prefixed blobs, and a reader over a byte
//! buffer that tracks its position and a running CRC-32.
use crate::crc32::{crc32_spec, crc_state, feed_bytes, lemma_crc_concat};
use crate::error::AnalysisError;
use byteorder::{ByteOrder, LittleEndian};
use vstd::prelude::*;
use vstd::slice::slice_subrange;

verus! {

/// The number that the first two bytes of `b` hold, least significant first.
pub open spec fn le_u16(b: Seq<u8>) -> u16 {
    (b[0] as int + b[1] as int * 0x100) as u16
}

/// The number that the first four bytes of `b` hold, least significant first.
pub open spec fn le_u32(b: Seq<u8>) -> u32 {
    (b[0] as int + b[1] as int * 0x100 + b[2] as int * 0x1_0000 + b[3] as int * 0x100_0000) as u32
}

/// The number that the first eight bytes of `b` hold, least significant first.
pub open spec fn le_u64(b: Seq<u8>) -> u64 {
    (le_u32(b) as int + le_u32(b.skip(4)) as int * 0x1_0000_0000) as u64
}

/// The signed reading of sixteen bits.
pub open spec fn as_i16(n: u16) -> i16 {
    if n < 0x8000 {
        n as i16
    } else {
        (n - 0x1_0000) as i16
    }
}

/// The signed reading of thirty-two bits.
pub open spec fn as_i32(n: u32) -> i32 {
    if n < 0x8000_0000 {
        n as i32
    } else {
        (n - 0x1_0000_0000) as i32
    }
}

/// The position behind `n` bytes at `pos`, or `-1` where `pos` is no position
/// or the data ends before.
pub open spec fn fixed_end(data: Seq<u8>, pos: int, n: int) -> int {
    if 0 <= pos && 0 <= n && pos + n <= data.len() {
        pos + n
    } else {
        -1
    }
}

pub open spec fn u8_at(data: Seq<u8>, pos: int) -> u8 {
    data[pos]
}

pub open spec fn u16_at(data: Seq<u8>, pos: int) -> u16 {
    le_u16(data.skip(pos))
}

pub open spec fn u32_at(data: Seq<u8>, pos: int) -> u32 {
    le_u32(data.skip(pos))
}

pub open spec fn u64_at(data: Seq<u8>, pos: int) -> u64 {
    le_u64(data.skip(pos))
}

/// The length that the blob at `pos` declares in its first four bytes.
pub open spec fn blob_len(data: Seq<u8>, pos: int) -> int {
    u32_at(data, pos) as int
}

/// The position behind the length-prefixed blob at `pos`, or `-1`.
pub open spec fn blob_end(data: Seq<u8>, pos: int) -> int {
    fixed_end(data, fixed_end(data, pos, 4), blob_len(data, pos))
}

/// The contents of the length-prefixed blob at `pos`.
pub open spec fn blob_at(data: Seq<u8>, pos: int) -> Seq<u8> {
    data.subrange(pos + 4, pos + 4 + blob_len(data, pos))
}

/// The position behind `count` blobs in a row from `pos` on, or `-1`.
pub open spec fn blobs_end(data: Seq<u8>, pos: int, count: nat) -> int
    decreases count,
{
    if count == 0 {
        pos
    } else {
        blobs_end(data, blob_end(data, pos), (count - 1) as nat)
    }
}

/// Calls `byteorder::LittleEndian::read_u16`. Trusted: the result is the
/// little-endian number in the first two bytes; the call panics on fewer.
#[verifier::external_body]
fn read_le_u16(buf: &[u8]) -> (n: u16)
    requires
        buf@.len() >= 2,
    ensures
        n == le_u16(buf@),
{
    LittleEndian::read_u16(buf)
}

/// Calls `byteorder::LittleEndian::read_u32`. Trusted: the result is the
/// little-endian number in the first four bytes; the call panics on fewer.
#[verifier::external_body]
fn read_le_u32(buf: &[u8]) -> (n: u32)
    requires
        buf@.len() >= 4,
    ensures
        n == le_u32(buf@),
{
    LittleEndian::read_u32(buf)
}

/// Calls `byteorder::LittleEndian::read_u64`. Trusted: the result is the
/// little-endian number in the first eight bytes; the call panics on fewer.
#[verifier::external_body]
fn read_le_u64(buf: &[u8]) -> (n: u64)
    requires
        buf@.len() >= 8,
    ensures
        n == le_u64(buf@),
{
    LittleEndian::read_u64(buf)
}

/// The little-endian `u32` at the start of `buf`, where it holds four bytes.
pub fn u32_at_start(buf: &[u8]) -> (n: Option<u32>)
    ensures
        n == (if buf@.len() >= 4 {
            Some(le_u32(buf@))
        } else {
            None
        }),
{
    if buf.len() >= 4 {
        Some(read_le_u32(buf))
    } else {
        None
    }
}

/// A reader over a byte buffer that tracks its position and keeps a running
/// CRC-32 of the bytes that were read through it with hashing.
pub struct ByteReader<'a> {
    data: &'a [u8],
    pos: usize,
    crc: u32,
    hashed: Ghost<Seq<u8>>,
}

impl<'a> ByteReader<'a> {
    /// The whole buffer.
    pub closed spec fn data(&self) -> Seq<u8> {
        self.data@
    }

    /// How many bytes were read.
    pub closed spec fn position(&self) -> int {
        self.pos as int
    }

    /// The bytes that the running checksum covers, in the order read.
    pub closed spec fn hashed(&self) -> Seq<u8> {
        self.hashed@
    }

    /// The position lies in the buffer and the register agrees with the
    /// hashed bytes.
    pub closed spec fn wf(&self) -> bool {
        self.pos <= self.data@.len() && self.crc == crc_state(self.hashed@)
    }

    /// A well-formed reader stands inside its buffer.
    pub proof fn lemma_position_in_bounds(&self)
        requires
            self.wf(),
        ensures
            0 <= self.position() <= self.data().len(),
            self.remaining().len() == self.data().len() - self.position(),
    {
    }

    /// The bytes not read yet.
    pub open spec fn remaining(&self) -> Seq<u8> {
        self.data().skip(self.position())
    }

    /// What a read of `n` bytes leaves behind: on enough data the position
    /// moves by `n` and, with `hash`, the bytes join the hashed ones; on too
    /// little nothing changes.
    pub open spec fn stepped(&self, after: &Self, n: int, hash: bool) -> bool {
        &&& after.wf()
        &&& after.data() == self.data()
        &&& if self.position() + n <= self.data().len() {
            &&& after.position() == self.position() + n
            &&& after.hashed() == if hash {
                self.hashed() + self.data().subrange(self.position(), self.position() + n)
            } else {
                self.hashed()
            }
        } else {
            after.position() == self.position() && after.hashed() == self.hashed()
        }
    }

    /// A reader at the start of `data` that has hashed nothing.
    pub fn new(data: &'a [u8]) -> (reader: Self)
        ensures
            reader.wf(),
            reader.data() == data@,
            reader.position() == 0,
            reader.hashed() == Seq::<u8>::empty(),
    {
        ByteReader { data, pos: 0, crc: 0xFFFF_FFFF, hashed: Ghost(Seq::empty()) }
    }

    /// The length of the whole buffer.
    pub fn data_len(&self) -> (n: usize)
        ensures
            n == self.data().len(),
    {
        self.data.len()
    }

    /// How many bytes were read.
    pub fn offset(&self) -> (n: usize)
        requires
            self.wf(),
        ensures
            n == self.position(),
            n <= self.data().len(),
    {
        self.pos
    }

    /// The CRC-32 of the hashed bytes.
    pub fn checksum(&self) -> (sum: u32)
        requires
            self.wf(),
        ensures
            sum == crc32_spec(self.hashed()),
    {
        self.crc ^ 0xFFFF_FFFF
    }

    /// Reads `n` bytes, hashing them if `hash` is set.
    pub fn take(&mut self, n: usize, hash: bool) -> (result: Result<&'a [u8], AnalysisError>)
        requires
            old(self).wf(),
        ensures
            old(self).stepped(final(self), n as int, hash),
            old(self).position() + n <= old(self).data().len() ==> result is Ok && result->Ok_0@
                == old(self).data().subrange(old(self).position(), old(self).position() + n),
            old(self).position() + n > old(self).data().len() ==> result == Err::<
                &[u8],
                AnalysisError,
            >(AnalysisError::TruncatedData),
    {
        if n > self.data.len() - self.pos {
            return Err(AnalysisError::TruncatedData);
        }
        let bytes = slice_subrange(self.data, self.pos, self.pos + n);
        if hash {
            proof {
                lemma_crc_concat(self.hashed@, bytes@);
            }
            self.crc = feed_bytes(self.crc, bytes);
            self.hashed = Ghost(self.hashed@ + bytes@);
        }
        self.pos = self.pos + n;
        Ok(bytes)
    }

    /// Reads one byte, hashed.
    pub fn read_u8(&mut self) -> (result: Result<u8, AnalysisError>)
        requires
            old(self).wf(),
        ensures
            old(self).moved_to(
                final(self),
                fixed_end(old(self).data(), old(self).position(), 1),
                result is Ok,
            ),
            result is Ok ==> result->Ok_0 == u8_at(old(self).data(), old(self).position()),
            result is Err ==> result->Err_0 == AnalysisError::TruncatedData,
            old(self).stepped(final(self), 1, true),
            result == (if old(self).remaining().len() >= 1 {
                Ok::<u8, AnalysisError>(old(self).remaining()[0])
            } else {
                Err(AnalysisError::TruncatedData)
            }),
    {
        match self.take(1, true) {
            Ok(bytes) => Ok(bytes[0]),
            Err(e) => Err(e),
        }
    }

    /// Reads a little-endian `u16`, hashed.
    pub fn read_u16(&mut self) -> (result: Result<u16, AnalysisError>)
        requires
            old(self).wf(),
        ensures
            old(self).moved_to(
                final(self),
                fixed_end(old(self).data(), old(self).position(), 2),
                result is Ok,
            ),
            result is Ok ==> result->Ok_0 == u16_at(old(self).data(), old(self).position()),
            result is Err ==> result->Err_0 == AnalysisError::TruncatedData,
            old(self).stepped(final(self), 2, true),
            result == (if old(self).remaining().len() >= 2 {
                Ok::<u16, AnalysisError>(le_u16(old(self).remaining()))
            } else {
                Err(AnalysisError::TruncatedData)
            }),
    {
        match self.take(2, true) {
            Ok(bytes) => {
                assert(bytes@[0] == old(self).remaining()[0]);
                assert(bytes@[1] == old(self).remaining()[1]);
                Ok(read_le_u16(bytes))
            },
            Err(e) => Err(e),
        }
    }

    /// Reads a little-endian `u32`, hashed if `hash` is set.
    pub fn read_u32_with(&mut self, hash: bool) -> (result: Result<u32, AnalysisError>)
        requires
            old(self).wf(),
        ensures
            old(self).moved_to(
                final(self),
                fixed_end(old(self).data(), old(self).position(), 4),
                result is Ok,
            ),
            result is Ok ==> result->Ok_0 == u32_at(old(self).data(), old(self).position()),
            result is Err ==> result->Err_0 == AnalysisError::TruncatedData,
            old(self).stepped(final(self), 4, hash),
            result == (if old(self).remaining().len() >= 4 {
                Ok::<u32, AnalysisError>(le_u32(old(self).remaining()))
            } else {
                Err(AnalysisError::TruncatedData)
            }),
    {
        match self.take(4, hash) {
            Ok(bytes) => {
                assert(bytes@[0] == old(self).remaining()[0]);
                assert(bytes@[1] == old(self).remaining()[1]);
                assert(bytes@[2] == old(self).remaining()[2]);
                assert(bytes@[3] == old(self).remaining()[3]);
                Ok(read_le_u32(bytes))
            },
            Err(e) => Err(e),
        }
    }

    /// Reads a little-endian `u32`, hashed.
    pub fn read_u32(&mut self) -> (result: Result<u32, AnalysisError>)
        requires
            old(self).wf(),
        ensures
            old(self).moved_to(
                final(self),
                fixed_end(old(self).data(), old(self).position(), 4),
                result is Ok,
            ),
            result is Ok ==> result->Ok_0 == u32_at(old(self).data(), old(self).position()),
            result is Err ==> result->Err_0 == AnalysisError::TruncatedData,
            old(self).stepped(final(self), 4, true),
            result == (if old(self).remaining().len() >= 4 {
                Ok::<u32, AnalysisError>(le_u32(old(self).remaining()))
            } else {
                Err(AnalysisError::TruncatedData)
            }),
    {
        self.read_u32_with(true)
    }

    /// Reads a little-endian `u64`, hashed.
    pub fn read_u64(&mut self) -> (result: Result<u64, AnalysisError>)
        requires
            old(self).wf(),
        ensures
            old(self).moved_to(
                final(self),
                fixed_end(old(self).data(), old(self).position(), 8),
                result is Ok,
            ),
            result is Ok ==> result->Ok_0 == u64_at(old(self).data(), old(self).position()),
            result is Err ==> result->Err_0 == AnalysisError::TruncatedData,
            old(self).stepped(final(self), 8, true),
            result == (if old(self).remaining().len() >= 8 {
                Ok::<u64, AnalysisError>(le_u64(old(self).remaining()))
            } else {
                Err(AnalysisError::TruncatedData)
            }),
    {
        match self.take(8, true) {
            Ok(bytes) => {
                assert(bytes@ =~= old(self).remaining().subrange(0, 8));
                assert(bytes@.skip(4) =~= old(self).remaining().subrange(4, 8));
                assert(old(self).remaining().skip(4).subrange(0, 4) =~= old(
                    self,
                ).remaining().subrange(4, 8));
                assert(le_u32(bytes@) == le_u32(old(self).remaining()));
                assert(le_u32(bytes@.skip(4)) == le_u32(old(self).remaining().skip(4)));
                Ok(read_le_u64(bytes))
            },
            Err(e) => Err(e),
        }
    }

    /// Reads a little-endian `i16`, hashed.
    pub fn read_i16(&mut self) -> (result: Result<i16, AnalysisError>)
        requires
            old(self).wf(),
        ensures
            old(self).moved_to(
                final(self),
                fixed_end(old(self).data(), old(self).position(), 2),
                result is Ok,
            ),
            result is Ok ==> result->Ok_0 == as_i16(u16_at(old(self).data(), old(self).position())),
            result is Err ==> result->Err_0 == AnalysisError::TruncatedData,
            old(self).stepped(final(self), 2, true),
            result == (if old(self).remaining().len() >= 2 {
                Ok::<i16, AnalysisError>(as_i16(le_u16(old(self).remaining())))
            } else {
                Err(AnalysisError::TruncatedData)
            }),
    {
        match self.read_u16() {
            Ok(n) => Ok(
                if n < 0x8000 {
                    n as i16
                } else {
                    (n as i32 - 0x1_0000) as i16
                },
            ),
            Err(e) => Err(e),
        }
    }

    /// Reads a little-endian `i32`, hashed.
    pub fn read_i32(&mut self) -> (result: Result<i32, AnalysisError>)
        requires
            old(self).wf(),
        ensures
            old(self).moved_to(
                final(self),
                fixed_end(old(self).data(), old(self).position(), 4),
                result is Ok,
            ),
            result is Ok ==> result->Ok_0 == as_i32(u32_at(old(self).data(), old(self).position())),
            result is Err ==> result->Err_0 == AnalysisError::TruncatedData,
            old(self).stepped(final(self), 4, true),
            result == (if old(self).remaining().len() >= 4 {
                Ok::<i32, AnalysisError>(as_i32(le_u32(old(self).remaining())))
            } else {
                Err(AnalysisError::TruncatedData)
            }),
    {
        match self.read_u32() {
            Ok(n) => Ok(
                if n < 0x8000_0000 {
                    n as i32
                } else {
                    (n as i64 - 0x1_0000_0000) as i32
                },
            ),
            Err(e) => Err(e),
        }
    }

    /// What a read of a piece that ends at `end` (or `-1`) leaves behind.
    pub open spec fn moved_to(&self, after: &Self, end: int, ok: bool) -> bool {
        &&& after.wf()
        &&& after.data() == self.data()
        &&& ok == (end >= 0)
        &&& ok ==> after.position() == end
    }

    /// Steps over `n` bytes.
    pub fn skip(&mut self, n: usize) -> (result: Result<(), AnalysisError>)
        requires
            old(self).wf(),
        ensures
            old(self).moved_to(
                final(self),
                fixed_end(old(self).data(), old(self).position(), n as int),
                result is Ok,
            ),
            result is Err ==> result->Err_0 == AnalysisError::TruncatedData,
    {
        match self.take(n, true) {
            Ok(_) => Ok(()),
            Err(e) => Err(e),
        }
    }

    /// Reads a blob: a little-endian `u32` length and that many bytes.
    pub fn read_blob(&mut self) -> (result: Result<&'a [u8], AnalysisError>)
        requires
            old(self).wf(),
        ensures
            old(self).moved_to(
                final(self),
                blob_end(old(self).data(), old(self).position()),
                result is Ok,
            ),
            result is Ok ==> result->Ok_0@ == blob_at(old(self).data(), old(self).position()),
            result is Err ==> result->Err_0 == AnalysisError::TruncatedData,
    {
        let len = match self.read_u32() {
            Ok(n) => n,
            Err(e) => {
                return Err(e);
            },
        };
        self.take(len as usize, true)
    }

    /// Steps over `count` blobs in a row.
    pub fn skip_blobs(&mut self, count: usize) -> (result: Result<(), AnalysisError>)
        requires
            old(self).wf(),
        ensures
            old(self).moved_to(
                final(self),
                blobs_end(old(self).data(), old(self).position(), count as nat),
                result is Ok,
            ),
            result is Err ==> result->Err_0 == AnalysisError::TruncatedData,
    {
        let mut done: usize = 0;
        while done < count
            invariant
                done <= count,
                self.wf(),
                self.data() == old(self).data(),
                blobs_end(self.data(), self.position(), (count - done) as nat) == blobs_end(
                    old(self).data(),
                    old(self).position(),
                    count as nat,
                ),
            decreases count - done,
        {
            match self.read_blob() {
                Ok(_) => {},
                Err(e) => {
                    proof {
                        lemma_blobs_end_fails(self.data(), (count - done - 1) as nat);
                    }
                    return Err(e);
                },
            }
            done = done + 1;
        }
        Ok(())
    }
}

/// Behind a failure every further blob fails.
pub proof fn lemma_blobs_end_fails(data: Seq<u8>, count: nat)
    ensures
        blobs_end(data, -1, count) == -1,
    decreases count,
{
    if count > 0 {
        lemma_blobs_end_fails(data, (count - 1) as nat);
    }
}

} // verus!
