//! The shared byte buffer and the cursor that reads and writes it.
//!
//! A buffer has the length it was allocated with and never changes it. A
//! stream walks a buffer from the front; every access first checks that it
//! stays inside the buffer and otherwise fails with [`OutOfBounds`], leaving
//! buffer and cursor untouched. Numbers are stored big-endian, at a fixed
//! width, with no padding between them.

use crate::error::OutOfBounds;
use vstd::prelude::*;

verus! {

/// The number of bytes that a double takes in a buffer.
pub const DOUBLE_SIZE: usize = 8;

/// The eight bytes of `bits`, most significant first.
pub open spec fn be_bytes(bits: u64) -> Seq<u8> {
    seq![
        (bits >> 56) as u8,
        ((bits >> 48) & 0xff) as u8,
        ((bits >> 40) & 0xff) as u8,
        ((bits >> 32) & 0xff) as u8,
        ((bits >> 24) & 0xff) as u8,
        ((bits >> 16) & 0xff) as u8,
        ((bits >> 8) & 0xff) as u8,
        (bits & 0xff) as u8,
    ]
}

/// The number whose big-endian bytes are the first eight of `bytes`.
pub open spec fn be_value(bytes: Seq<u8>) -> u64 {
    (bytes[0] as u64) << 56 | (bytes[1] as u64) << 48 | (bytes[2] as u64) << 40 | (bytes[3] as u64)
        << 32 | (bytes[4] as u64) << 24 | (bytes[5] as u64) << 16 | (bytes[6] as u64) << 8 | (
    bytes[7] as u64)
}

/// Reading the bytes of a number gives the number back.
pub proof fn lemma_be_value_of_bytes(bits: u64)
    ensures
        be_bytes(bits).len() == 8,
        be_value(be_bytes(bits)) == bits,
{
    assert(((bits >> 56) as u8 as u64) << 56 | (((bits >> 48) & 0xff) as u8 as u64) << 48 | (((bits
        >> 40) & 0xff) as u8 as u64) << 40 | (((bits >> 32) & 0xff) as u8 as u64) << 32 | (((bits
        >> 24) & 0xff) as u8 as u64) << 24 | (((bits >> 16) & 0xff) as u8 as u64) << 16 | (((bits
        >> 8) & 0xff) as u8 as u64) << 8 | ((bits & 0xff) as u8 as u64) == bits) by (bit_vector);
}

/// Writing the number read from eight bytes gives the bytes back.
pub proof fn lemma_be_bytes_of_value(bytes: Seq<u8>)
    requires
        bytes.len() == 8,
    ensures
        be_bytes(be_value(bytes)) == bytes,
{
    let b0 = bytes[0];
    let b1 = bytes[1];
    let b2 = bytes[2];
    let b3 = bytes[3];
    let b4 = bytes[4];
    let b5 = bytes[5];
    let b6 = bytes[6];
    let b7 = bytes[7];
    let x = be_value(bytes);
    assert(x == (b0 as u64) << 56 | (b1 as u64) << 48 | (b2 as u64) << 40 | (b3 as u64) << 32 | (
    b4 as u64) << 24 | (b5 as u64) << 16 | (b6 as u64) << 8 | (b7 as u64));
    assert((x >> 56) as u8 == b0 && ((x >> 48) & 0xff) as u8 == b1 && ((x >> 40) & 0xff) as u8 == b2
        && ((x >> 32) & 0xff) as u8 == b3 && ((x >> 24) & 0xff) as u8 == b4 && ((x >> 16)
        & 0xff) as u8 == b5 && ((x >> 8) & 0xff) as u8 == b6 && (x & 0xff) as u8 == b7)
        by (bit_vector)
        requires
            x == (b0 as u64) << 56 | (b1 as u64) << 48 | (b2 as u64) << 40 | (b3 as u64) << 32 | (
            b4 as u64) << 24 | (b5 as u64) << 16 | (b6 as u64) << 8 | (b7 as u64),
    ;
    assert(be_bytes(x) =~= bytes);
}

/// `bytes` with the stretch that starts at `at` replaced by `patch`.
pub open spec fn overwritten(bytes: Seq<u8>, at: int, patch: Seq<u8>) -> Seq<u8>
    recommends
        0 <= at,
        at + patch.len() <= bytes.len(),
{
    bytes.subrange(0, at) + patch + bytes.subrange(at + patch.len(), bytes.len() as int)
}

/// A contiguous run of bytes of fixed length.
#[derive(Debug, PartialEq, Eq)]
pub struct RustBuffer {
    data: Vec<u8>,
}

impl View for RustBuffer {
    type V = Seq<u8>;

    closed spec fn view(&self) -> Seq<u8> {
        self.data@
    }
}

impl RustBuffer {
    /// A buffer of `size` bytes, all zero.
    pub fn allocate(size: usize) -> (r: RustBuffer)
        ensures
            r@ == Seq::new(size as nat, |i: int| 0u8),
    {
        let mut data: Vec<u8> = Vec::new();
        let mut i: usize = 0;
        while i < size
            invariant
                i <= size,
                data@ == Seq::new(i as nat, |j: int| 0u8),
            decreases size - i,
        {
            data.push(0u8);
            i += 1;
        }
        RustBuffer { data }
    }

    /// The buffer that holds exactly `data`.
    pub fn from_bytes(data: Vec<u8>) -> (r: RustBuffer)
        ensures
            r@ == data@,
    {
        RustBuffer { data }
    }

    /// The bytes of the buffer.
    pub fn into_bytes(self) -> (r: Vec<u8>)
        ensures
            r@ == self@,
    {
        self.data
    }

    /// The length that the buffer was allocated with.
    pub fn len(&self) -> (r: usize)
        ensures
            r == self@.len(),
    {
        self.data.len()
    }
}

/// A cursor into a buffer. It owns the buffer for the time of one lift or
/// lower operation and moves forward with every read and write.
#[derive(Debug)]
pub struct RustBufferStream {
    rbuf: RustBuffer,
    offset: usize,
}

impl RustBufferStream {
    /// The contents of the buffer under the cursor.
    pub closed spec fn bytes(&self) -> Seq<u8> {
        self.rbuf@
    }

    /// The offset of the next access.
    pub closed spec fn position(&self) -> nat {
        self.offset as nat
    }

    /// The cursor never stands behind the end of the buffer.
    #[verifier::type_invariant]
    pub open spec fn in_bounds(&self) -> bool {
        self.position() <= self.bytes().len()
    }

    /// Whether an access of `size` bytes stays inside the buffer.
    pub open spec fn has_room(&self, size: nat) -> bool {
        self.position() + size <= self.bytes().len()
    }

    /// A cursor at the start of `rbuf`.
    pub fn new(rbuf: RustBuffer) -> (r: RustBufferStream)
        ensures
            r.bytes() == rbuf@,
            r.position() == 0,
    {
        RustBufferStream { rbuf, offset: 0 }
    }

    /// Gives the buffer back.
    pub fn into_buffer(self) -> (r: RustBuffer)
        ensures
            r@ == self.bytes(),
    {
        self.rbuf
    }

    /// The offset of the next access.
    pub fn offset(&self) -> (r: usize)
        ensures
            r == self.position(),
    {
        self.offset
    }

    /// The length of the buffer under the cursor.
    pub fn len(&self) -> (r: usize)
        ensures
            r == self.bytes().len(),
    {
        self.rbuf.len()
    }

    /// Decides whether the next `size` bytes may be accessed.
    pub fn checked_access(&self, size: usize) -> (r: Result<(), OutOfBounds>)
        ensures
            r is Ok <==> self.has_room(size as nat),
            r is Ok ==> self.position() + size <= usize::MAX,
    {
        let len = self.rbuf.data.len();
        if self.offset <= len && size <= len - self.offset {
            Ok(())
        } else {
            Err(OutOfBounds)
        }
    }

    /// Reads one byte and moves past it.
    pub fn get_byte(&mut self) -> (r: Result<u8, OutOfBounds>)
        ensures
            match r {
                Ok(b) => {
                    &&& old(self).has_room(1)
                    &&& b == old(self).bytes()[old(self).position() as int]
                    &&& final(self).bytes() == old(self).bytes()
                    &&& final(self).position() == old(self).position() + 1
                },
                Err(_) => !old(self).has_room(1) && *final(self) == *old(self),
            },
    {
        match self.checked_access(1) {
            Ok(()) => {
                let b = self.rbuf.data[self.offset];
                self.offset = self.offset + 1;
                Ok(b)
            },
            Err(e) => Err(e),
        }
    }

    /// Writes one byte and moves past it.
    pub fn put_byte(&mut self, v: u8) -> (r: Result<(), OutOfBounds>)
        ensures
            match r {
                Ok(_) => {
                    &&& old(self).has_room(1)
                    &&& final(self).bytes() == old(self).bytes().update(
                        old(self).position() as int,
                        v,
                    )
                    &&& final(self).position() == old(self).position() + 1
                },
                Err(_) => !old(self).has_room(1) && *final(self) == *old(self),
            },
    {
        match self.checked_access(1) {
            Ok(()) => {
                let at = self.offset;
                self.rbuf.data[at] = v;
                self.offset = at + 1;
                Ok(())
            },
            Err(e) => Err(e),
        }
    }

    /// Reads one double, as its bit pattern, and moves past it.
    pub fn get_double(&mut self) -> (r: Result<u64, OutOfBounds>)
        ensures
            match r {
                Ok(bits) => {
                    &&& old(self).has_room(8)
                    &&& bits == be_value(
                        old(self).bytes().subrange(
                            old(self).position() as int,
                            old(self).position() as int + 8,
                        ),
                    )
                    &&& final(self).bytes() == old(self).bytes()
                    &&& final(self).position() == old(self).position() + 8
                },
                Err(_) => !old(self).has_room(8) && *final(self) == *old(self),
            },
    {
        match self.checked_access(DOUBLE_SIZE) {
            Ok(()) => {
                let at = self.offset;
                let b0 = self.rbuf.data[at] as u64;
                let b1 = self.rbuf.data[at + 1] as u64;
                let b2 = self.rbuf.data[at + 2] as u64;
                let b3 = self.rbuf.data[at + 3] as u64;
                let b4 = self.rbuf.data[at + 4] as u64;
                let b5 = self.rbuf.data[at + 5] as u64;
                let b6 = self.rbuf.data[at + 6] as u64;
                let b7 = self.rbuf.data[at + 7] as u64;
                let bits = b0 << 56 | b1 << 48 | b2 << 40 | b3 << 32 | b4 << 24 | b5 << 16 | b6 << 8
                    | b7;
                self.offset = at + DOUBLE_SIZE;
                Ok(bits)
            },
            Err(e) => Err(e),
        }
    }

    /// Writes one double, given as its bit pattern, and moves past it.
    pub fn put_double(&mut self, bits: u64) -> (r: Result<(), OutOfBounds>)
        ensures
            match r {
                Ok(_) => {
                    &&& old(self).has_room(8)
                    &&& final(self).bytes() == overwritten(
                        old(self).bytes(),
                        old(self).position() as int,
                        be_bytes(bits),
                    )
                    &&& final(self).position() == old(self).position() + 8
                },
                Err(_) => !old(self).has_room(8) && *final(self) == *old(self),
            },
    {
        match self.checked_access(DOUBLE_SIZE) {
            Ok(()) => {
                let at = self.offset;
                assert(bits >> 56 < 256) by (bit_vector);
                self.rbuf.data[at] = (bits >> 56) as u8;
                self.rbuf.data[at + 1] = ((bits >> 48) & 0xff) as u8;
                self.rbuf.data[at + 2] = ((bits >> 40) & 0xff) as u8;
                self.rbuf.data[at + 3] = ((bits >> 32) & 0xff) as u8;
                self.rbuf.data[at + 4] = ((bits >> 24) & 0xff) as u8;
                self.rbuf.data[at + 5] = ((bits >> 16) & 0xff) as u8;
                self.rbuf.data[at + 6] = ((bits >> 8) & 0xff) as u8;
                self.rbuf.data[at + 7] = (bits & 0xff) as u8;
                self.offset = at + DOUBLE_SIZE;
                assert(self.bytes() =~= overwritten(
                    old(self).bytes(),
                    old(self).position() as int,
                    be_bytes(bits),
                ));
                Ok(())
            },
            Err(e) => Err(e),
        }
    }
}

} // verus!
