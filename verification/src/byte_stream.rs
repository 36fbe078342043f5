//! A big-endian typed cursor over a byte slice.
//!
//! Every multi-byte primitive is assembled by big-endian byte combination —
//! no alignment is assumed. Reading past the end of the buffer is reported
//! as a truncated-input error, which the class-file decoder treats as fatal.

use vstd::prelude::*;

use crate::classfile::ConstantPool;
use crate::error::VmError;

verus! {

/// The big-endian 16-bit value formed by the two bytes at `i`.
pub open spec fn be_u16(s: Seq<u8>, i: int) -> u16 {
    ((s[i] as int) * 0x100 + (s[i + 1] as int)) as u16
}

/// The big-endian 32-bit value formed by the four bytes at `i`.
pub open spec fn be_u32(s: Seq<u8>, i: int) -> u32 {
    ((s[i] as int) * 0x100_0000 + (s[i + 1] as int) * 0x1_0000 + (s[i + 2] as int) * 0x100 + (s[i
        + 3] as int)) as u32
}

/// The big-endian 64-bit value formed by the eight bytes at `i`.
pub open spec fn be_u64(s: Seq<u8>, i: int) -> u64 {
    ((be_u32(s, i) as int) * 0x1_0000_0000 + (be_u32(s, i + 4) as int)) as u64
}

/// A cursor over a byte slice; `index` is the position of the next read.
pub struct ByteStream<'a> {
    pub index: usize,
    pub data: &'a [u8],
}

/// Context handed through to typed reads. The fixed-width readers below
/// never consult it; it carries the constant pool for record readers that
/// resolve indices while decoding.
pub struct ReaderContext {
    pub constant_pool: Vec<ConstantPool>,
}

/// A fixed-width value that can be read from the front of a byte buffer.
pub trait ByteRead: Sized {
    /// Width of the encoding in bytes.
    spec fn byte_len() -> nat;

    /// The value the bytes at `i` encode.
    spec fn decode_at(s: Seq<u8>, i: int) -> Self;

    /// Reads one value from the front of `buffer`.
    fn read(buffer: &[u8]) -> (r: Self)
        requires
            Self::byte_len() <= buffer@.len(),
        ensures
            r == Self::decode_at(buffer@, 0),
    ;
}

/// A fixed-width value that can be read from a stream, advancing it.
pub trait StreamRead: Sized {
    /// Width of the encoding in bytes.
    spec fn byte_len() -> nat;

    /// The value the bytes at `i` encode.
    spec fn decode_at(s: Seq<u8>, i: int) -> Self;

    /// Reads one value at the stream's index and advances past it; fails
    /// without moving if fewer than `byte_len` bytes remain.
    fn read<'a>(stream: &mut ByteStream<'a>, ctx: &ReaderContext) -> (r: Result<Self, VmError>)
        ensures
            match r {
                Ok(v) => {
                    &&& old(stream).index + Self::byte_len() <= old(stream).data@.len()
                    &&& final(stream).data == old(stream).data
                    &&& final(stream).index == old(stream).index + Self::byte_len()
                    &&& v == Self::decode_at(old(stream).data@, old(stream).index as int)
                },
                Err(e) => {
                    &&& *final(stream) == *old(stream)
                    &&& old(stream).index + Self::byte_len() > old(stream).data@.len()
                    &&& e == VmError::TruncatedClassFile
                },
            },
    ;
}

/// A record that reports its own length from the buffer prefix. No reader
/// of this crate is variable-width; the trait is the extension point for
/// ones that are.
pub trait VaryingRead<'a>: Sized {
    fn len(data: &'a [u8]) -> usize;

    fn read(data: &'a [u8]) -> Self;
}

impl<'a> ByteStream<'a> {
    pub fn new(data: &'a [u8]) -> (r: ByteStream<'a>)
        ensures
            r.index == 0,
            r.data == data,
    {
        ByteStream { index: 0, data }
    }

    pub fn reset(&mut self)
        ensures
            final(self).index == 0,
            final(self).data == old(self).data,
    {
        self.index = 0;
    }

    pub fn has_next(&self) -> (r: bool)
        ensures
            r == (self.index < self.data@.len()),
    {
        self.index < self.data.len()
    }

    /// The bytes not yet consumed.
    pub fn current(&self) -> (r: &'a [u8])
        requires
            self.index <= self.data@.len(),
        ensures
            r@ == self.data@.subrange(self.index as int, self.data@.len() as int),
    {
        &self.data[self.index..self.data.len()]
    }

    /// Reads one fixed-width value and advances past it.
    pub fn read<B: StreamRead>(&mut self, ctx: &ReaderContext) -> (r: Result<B, VmError>)
        ensures
            match r {
                Ok(v) => {
                    &&& old(self).index + B::byte_len() <= old(self).data@.len()
                    &&& final(self).data == old(self).data
                    &&& final(self).index == old(self).index + B::byte_len()
                    &&& v == B::decode_at(old(self).data@, old(self).index as int)
                },
                Err(e) => {
                    &&& *final(self) == *old(self)
                    &&& old(self).index + B::byte_len() > old(self).data@.len()
                    &&& e == VmError::TruncatedClassFile
                },
            },
    {
        B::read(self, ctx)
    }

    /// Reads `count` values in order; fails if the buffer runs out before
    /// all of them are read.
    #[verifier::loop_isolation(false)]
    pub fn read_many<B: StreamRead>(&mut self, count: usize, ctx: &ReaderContext) -> (r: Result<
        Vec<B>,
        VmError,
    >)
        requires
            B::byte_len() >= 1,
        ensures
            match r {
                Ok(v) => {
                    &&& count > 0 ==> old(self).index + count * B::byte_len() <= old(
                        self,
                    ).data@.len()
                    &&& final(self).data == old(self).data
                    &&& final(self).index == old(self).index + count * B::byte_len()
                    &&& v@.len() == count
                    &&& forall|k: int| 0 <= k < count ==> v@[k] == B::decode_at(
                        old(self).data@,
                        old(self).index + k * B::byte_len(),
                    )
                },
                Err(e) => {
                    &&& final(self).data == old(self).data
                    &&& old(self).index + count * B::byte_len() > old(self).data@.len()
                    &&& e == VmError::TruncatedClassFile
                },
            },
    {
        let mut out: Vec<B> = Vec::new();
        let mut k: usize = 0;
        let ghost start = self.index as int;
        let ghost d0 = self.data;
        let ghost dv = self.data@;
        while k < count
            invariant
                k <= count,
                self.data == d0,
                self.data@ == dv,
                self.index == start + k * B::byte_len(),
                k > 0 ==> start + k * B::byte_len() <= dv.len(),
                out@.len() == k,
                B::byte_len() >= 1,
                forall|j: int| 0 <= j < k ==> out@[j] == B::decode_at(
                    dv,
                    start + j * B::byte_len(),
                ),
            decreases count - k,
        {
            match self.read::<B>(ctx) {
                Ok(v) => {
                    out.push(v);
                },
                Err(e) => {
                    proof {
                        // The failed element shows the whole request does
                        // not fit.
                        assert(start + k * B::byte_len() + B::byte_len() > dv.len());
                        assert((k + 1) * B::byte_len() == k * B::byte_len() + B::byte_len())
                            by (nonlinear_arith);
                        assert(count * B::byte_len() >= (k + 1) * B::byte_len())
                            by (nonlinear_arith)
                            requires
                                k + 1 <= count as int,
                                B::byte_len() >= 1,
                        ;
                    }
                    return Err(e);
                },
            }
            proof {
                assert((k + 1) * B::byte_len() == k * B::byte_len() + B::byte_len())
                    by (nonlinear_arith);
            }
            k = k + 1;
        }
        Ok(out)
    }
}

impl ByteRead for u8 {
    open spec fn byte_len() -> nat {
        1
    }

    open spec fn decode_at(s: Seq<u8>, i: int) -> u8 {
        s[i]
    }

    fn read(buffer: &[u8]) -> (r: u8) {
        buffer[0]
    }
}

impl ByteRead for i8 {
    open spec fn byte_len() -> nat {
        1
    }

    open spec fn decode_at(s: Seq<u8>, i: int) -> i8 {
        s[i] as i8
    }

    fn read(buffer: &[u8]) -> (r: i8) {
        buffer[0] as i8
    }
}

impl ByteRead for u16 {
    open spec fn byte_len() -> nat {
        2
    }

    open spec fn decode_at(s: Seq<u8>, i: int) -> u16 {
        be_u16(s, i)
    }

    fn read(buffer: &[u8]) -> (r: u16) {
        (buffer[0] as u16) * 0x100 + (buffer[1] as u16)
    }
}

impl ByteRead for i16 {
    open spec fn byte_len() -> nat {
        2
    }

    open spec fn decode_at(s: Seq<u8>, i: int) -> i16 {
        be_u16(s, i) as i16
    }

    fn read(buffer: &[u8]) -> (r: i16) {
        let v: i16 = #[verifier::truncate] (((buffer[0] as u16) * 0x100 + (buffer[1] as u16))
            as i16);
        v
    }
}

impl ByteRead for u32 {
    open spec fn byte_len() -> nat {
        4
    }

    open spec fn decode_at(s: Seq<u8>, i: int) -> u32 {
        be_u32(s, i)
    }

    fn read(buffer: &[u8]) -> (r: u32) {
        (buffer[0] as u32) * 0x100_0000 + (buffer[1] as u32) * 0x1_0000 + (buffer[2] as u32)
            * 0x100 + (buffer[3] as u32)
    }
}

impl ByteRead for i32 {
    open spec fn byte_len() -> nat {
        4
    }

    open spec fn decode_at(s: Seq<u8>, i: int) -> i32 {
        be_u32(s, i) as i32
    }

    fn read(buffer: &[u8]) -> (r: i32) {
        let v: i32 = #[verifier::truncate] (((buffer[0] as u32) * 0x100_0000 + (buffer[1] as u32)
            * 0x1_0000 + (buffer[2] as u32) * 0x100 + (buffer[3] as u32)) as i32);
        v
    }
}

impl ByteRead for u64 {
    open spec fn byte_len() -> nat {
        8
    }

    open spec fn decode_at(s: Seq<u8>, i: int) -> u64 {
        be_u64(s, i)
    }

    fn read(buffer: &[u8]) -> (r: u64) {
        let hi = (buffer[0] as u32) * 0x100_0000 + (buffer[1] as u32) * 0x1_0000 + (buffer[2]
            as u32) * 0x100 + (buffer[3] as u32);
        let lo = (buffer[4] as u32) * 0x100_0000 + (buffer[5] as u32) * 0x1_0000 + (buffer[6]
            as u32) * 0x100 + (buffer[7] as u32);
        (hi as u64) * 0x1_0000_0000 + (lo as u64)
    }
}

impl ByteRead for i64 {
    open spec fn byte_len() -> nat {
        8
    }

    open spec fn decode_at(s: Seq<u8>, i: int) -> i64 {
        be_u64(s, i) as i64
    }

    fn read(buffer: &[u8]) -> (r: i64) {
        let v: i64 = #[verifier::truncate] ((<u64 as ByteRead>::read(buffer)) as i64);
        v
    }
}

impl StreamRead for u8 {
    open spec fn byte_len() -> nat {
        1
    }

    open spec fn decode_at(s: Seq<u8>, i: int) -> u8 {
        s[i]
    }

    fn read<'a>(stream: &mut ByteStream<'a>, _ctx: &ReaderContext) -> (r: Result<u8, VmError>) {
        let i = stream.index;
        if i >= stream.data.len() {
            return Err(VmError::TruncatedClassFile);
        }
        let v = stream.data[i];
        stream.index = i + 1;
        Ok(v)
    }
}

impl StreamRead for i8 {
    open spec fn byte_len() -> nat {
        1
    }

    open spec fn decode_at(s: Seq<u8>, i: int) -> i8 {
        s[i] as i8
    }

    fn read<'a>(stream: &mut ByteStream<'a>, _ctx: &ReaderContext) -> (r: Result<i8, VmError>) {
        let i = stream.index;
        if i >= stream.data.len() {
            return Err(VmError::TruncatedClassFile);
        }
        let v: i8 = #[verifier::truncate] (stream.data[i] as i8);
        stream.index = i + 1;
        Ok(v)
    }
}

impl StreamRead for u16 {
    open spec fn byte_len() -> nat {
        2
    }

    open spec fn decode_at(s: Seq<u8>, i: int) -> u16 {
        be_u16(s, i)
    }

    fn read<'a>(stream: &mut ByteStream<'a>, _ctx: &ReaderContext) -> (r: Result<u16, VmError>) {
        let i = stream.index;
        if i > stream.data.len() || stream.data.len() - i < 2 {
            return Err(VmError::TruncatedClassFile);
        }
        let v = (stream.data[i] as u16) * 0x100 + (stream.data[i + 1] as u16);
        stream.index = i + 2;
        Ok(v)
    }
}

impl StreamRead for i16 {
    open spec fn byte_len() -> nat {
        2
    }

    open spec fn decode_at(s: Seq<u8>, i: int) -> i16 {
        be_u16(s, i) as i16
    }

    fn read<'a>(stream: &mut ByteStream<'a>, _ctx: &ReaderContext) -> (r: Result<i16, VmError>) {
        let i = stream.index;
        if i > stream.data.len() || stream.data.len() - i < 2 {
            return Err(VmError::TruncatedClassFile);
        }
        let v: i16 = #[verifier::truncate] (((stream.data[i] as u16) * 0x100 + (stream.data[i + 1]
            as u16)) as i16);
        stream.index = i + 2;
        Ok(v)
    }
}

impl StreamRead for u32 {
    open spec fn byte_len() -> nat {
        4
    }

    open spec fn decode_at(s: Seq<u8>, i: int) -> u32 {
        be_u32(s, i)
    }

    fn read<'a>(stream: &mut ByteStream<'a>, _ctx: &ReaderContext) -> (r: Result<u32, VmError>) {
        let i = stream.index;
        if i > stream.data.len() || stream.data.len() - i < 4 {
            return Err(VmError::TruncatedClassFile);
        }
        let v = (stream.data[i] as u32) * 0x100_0000 + (stream.data[i + 1] as u32) * 0x1_0000 + (
        stream.data[i + 2] as u32) * 0x100 + (stream.data[i + 3] as u32);
        stream.index = i + 4;
        Ok(v)
    }
}

impl StreamRead for i32 {
    open spec fn byte_len() -> nat {
        4
    }

    open spec fn decode_at(s: Seq<u8>, i: int) -> i32 {
        be_u32(s, i) as i32
    }

    fn read<'a>(stream: &mut ByteStream<'a>, _ctx: &ReaderContext) -> (r: Result<i32, VmError>) {
        let i = stream.index;
        if i > stream.data.len() || stream.data.len() - i < 4 {
            return Err(VmError::TruncatedClassFile);
        }
        let v: i32 = #[verifier::truncate] (((stream.data[i] as u32) * 0x100_0000 + (stream.data[i
            + 1] as u32) * 0x1_0000 + (stream.data[i + 2] as u32) * 0x100 + (stream.data[i + 3]
            as u32)) as i32);
        stream.index = i + 4;
        Ok(v)
    }
}

impl StreamRead for u64 {
    open spec fn byte_len() -> nat {
        8
    }

    open spec fn decode_at(s: Seq<u8>, i: int) -> u64 {
        be_u64(s, i)
    }

    fn read<'a>(stream: &mut ByteStream<'a>, _ctx: &ReaderContext) -> (r: Result<u64, VmError>) {
        let i = stream.index;
        if i > stream.data.len() || stream.data.len() - i < 8 {
            return Err(VmError::TruncatedClassFile);
        }
        let hi = (stream.data[i] as u32) * 0x100_0000 + (stream.data[i + 1] as u32) * 0x1_0000 + (
        stream.data[i + 2] as u32) * 0x100 + (stream.data[i + 3] as u32);
        let lo = (stream.data[i + 4] as u32) * 0x100_0000 + (stream.data[i + 5] as u32) * 0x1_0000
            + (stream.data[i + 6] as u32) * 0x100 + (stream.data[i + 7] as u32);
        let v = (hi as u64) * 0x1_0000_0000 + (lo as u64);
        stream.index = i + 8;
        Ok(v)
    }
}

impl StreamRead for i64 {
    open spec fn byte_len() -> nat {
        8
    }

    open spec fn decode_at(s: Seq<u8>, i: int) -> i64 {
        be_u64(s, i) as i64
    }

    fn read<'a>(stream: &mut ByteStream<'a>, ctx: &ReaderContext) -> (r: Result<i64, VmError>) {
        match <u64 as StreamRead>::read(stream, ctx) {
            Ok(v) => {
                let w: i64 = #[verifier::truncate] (v as i64);
                Ok(w)
            },
            Err(e) => Err(e),
        }
    }
}

} // verus!
