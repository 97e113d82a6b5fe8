//! Domain memory: a resizable, byte-addressed linear buffer.

use vstd::prelude::*;
use crate::error::Error;

verus! {

/// The length of the memory that a content domain starts with.
pub const DEFAULT_MEMORY_LENGTH: usize = 1024;

/// The value of two bytes read in little-endian order.
pub open spec fn le_u16(b0: u8, b1: u8) -> int {
    b0 as int + 256 * (b1 as int)
}

/// The value of four bytes read in little-endian order.
pub open spec fn le_u32(b0: u8, b1: u8, b2: u8, b3: u8) -> int {
    le_u16(b0, b1) + 65536 * le_u16(b2, b3)
}

/// `k` zero bytes.
pub open spec fn zeros(k: nat) -> Seq<u8> {
    Seq::new(k, |i: int| 0u8)
}

/// What `set_length(n)` makes of the contents `s`.
pub open spec fn resized(s: Seq<u8>, n: nat) -> Seq<u8> {
    if n <= s.len() {
        s.take(n as int)
    } else {
        s + zeros((n - s.len()) as nat)
    }
}

/// `width` bytes at `offset` lie inside a buffer of `len` bytes.
pub open spec fn in_bounds(len: nat, offset: int, width: int) -> bool {
    0 <= offset && offset + width <= len
}

/// The bounds of memory: the last byte is inside, the byte after it is not,
/// and growing keeps every byte that was there.
pub proof fn lemma_memory_bounds(s: Seq<u8>, n: nat)
    requires
        s.len() > 0,
        s.len() <= n,
    ensures
        in_bounds(s.len(), s.len() - 1, 1),
        !in_bounds(s.len(), s.len() as int, 1),
        resized(s, n).len() == n,
        resized(s, n).take(s.len() as int) == s,
{
    assert(resized(s, n).take(s.len() as int) =~= s);
}

/// A resizable linear byte buffer.
pub struct ByteArray {
    bytes: Vec<u8>,
}

impl View for ByteArray {
    type V = Seq<u8>;

    closed spec fn view(&self) -> Seq<u8> {
        self.bytes@
    }
}

impl ByteArray {
    /// An empty buffer.
    pub fn new() -> (r: ByteArray)
        ensures
            r@ == Seq::<u8>::empty(),
    {
        ByteArray { bytes: Vec::new() }
    }

    /// A buffer of `n` zero bytes.
    pub fn with_length(n: usize) -> (r: ByteArray)
        ensures
            r@ == zeros(n as nat),
    {
        let mut r = ByteArray::new();
        r.set_length(n);
        assert(r@ =~= zeros(n as nat));
        r
    }

    pub fn len(&self) -> (r: usize)
        ensures
            r == self@.len(),
    {
        self.bytes.len()
    }

    /// Grows the buffer with zero bytes, or cuts it, to `n` bytes.
    pub fn set_length(&mut self, n: usize)
        ensures
            final(self)@ == resized(old(self)@, n as nat),
    {
        let old_len = self.bytes.len();
        if n <= old_len {
            self.bytes.truncate(n);
            assert(self@ =~= resized(old(self)@, n as nat));
        } else {
            while self.bytes.len() < n
                invariant
                    old_len <= self.bytes@.len() <= n,
                    old_len == old(self)@.len(),
                    self.bytes@ =~= old(self)@ + zeros((self.bytes@.len() - old_len) as nat),
                decreases n - self.bytes@.len(),
            {
                self.bytes.push(0);
            }
            assert(self@ =~= resized(old(self)@, n as nat));
        }
    }

    /// The byte at `offset`.
    pub fn read_u8(&self, offset: usize) -> (r: Result<u8, Error>)
        ensures
            in_bounds(self@.len(), offset as int, 1) ==> r == Ok::<u8, Error>(self@[offset as int]),
            !in_bounds(self@.len(), offset as int, 1) ==> r matches Err(Error::Range),
    {
        if offset < self.bytes.len() {
            Ok(self.bytes[offset])
        } else {
            Err(Error::Range)
        }
    }

    /// Sets the byte at `offset`.
    pub fn write_u8(&mut self, offset: usize, value: u8) -> (r: Result<(), Error>)
        ensures
            in_bounds(old(self)@.len(), offset as int, 1) ==> r is Ok && final(self)@ == old(
                self,
            )@.update(offset as int, value),
            !in_bounds(old(self)@.len(), offset as int, 1) ==> (r matches Err(Error::Range)
                && final(self)@ == old(self)@),
    {
        if offset < self.bytes.len() {
            self.bytes.set(offset, value);
            Ok(())
        } else {
            Err(Error::Range)
        }
    }

    /// The little-endian 16-bit value at `offset`.
    pub fn read_u16(&self, offset: usize) -> (r: Result<u16, Error>)
        ensures
            in_bounds(self@.len(), offset as int, 2) ==> (r matches Ok(v) && v == le_u16(
                self@[offset as int],
                self@[offset + 1],
            )),
            !in_bounds(self@.len(), offset as int, 2) ==> r matches Err(Error::Range),
    {
        let len = self.bytes.len();
        if offset < len && len - offset >= 2 {
            let b0 = self.bytes[offset];
            let b1 = self.bytes[offset + 1];
            Ok(b0 as u16 + 256 * (b1 as u16))
        } else {
            Err(Error::Range)
        }
    }

    /// The little-endian 32-bit value at `offset`.
    pub fn read_u32(&self, offset: usize) -> (r: Result<u32, Error>)
        ensures
            in_bounds(self@.len(), offset as int, 4) ==> (r matches Ok(v) && v == le_u32(
                self@[offset as int],
                self@[offset + 1],
                self@[offset + 2],
                self@[offset + 3],
            )),
            !in_bounds(self@.len(), offset as int, 4) ==> r matches Err(Error::Range),
    {
        let len = self.bytes.len();
        if offset < len && len - offset >= 4 {
            let lo = self.bytes[offset] as u32 + 256 * (self.bytes[offset + 1] as u32);
            let hi = self.bytes[offset + 2] as u32 + 256 * (self.bytes[offset + 3] as u32);
            Ok(lo + 65536 * hi)
        } else {
            Err(Error::Range)
        }
    }

    /// Stores `value` at `offset` as two little-endian bytes.
    pub fn write_u16(&mut self, offset: usize, value: u16) -> (r: Result<(), Error>)
        ensures
            in_bounds(old(self)@.len(), offset as int, 2) ==> r is Ok && final(self)@ == old(
                self,
            )@.update(offset as int, (value % 256) as u8).update(
                offset + 1,
                (value / 256) as u8,
            ),
            !in_bounds(old(self)@.len(), offset as int, 2) ==> (r matches Err(Error::Range)
                && final(self)@ == old(self)@),
    {
        let len = self.bytes.len();
        if offset < len && len - offset >= 2 {
            self.bytes.set(offset, (value % 256) as u8);
            self.bytes.set(offset + 1, (value / 256) as u8);
            Ok(())
        } else {
            Err(Error::Range)
        }
    }

    /// Stores `value` at `offset` as four little-endian bytes.
    pub fn write_u32(&mut self, offset: usize, value: u32) -> (r: Result<(), Error>)
        ensures
            in_bounds(old(self)@.len(), offset as int, 4) ==> r is Ok && final(self)@ == old(
                self,
            )@.update(offset as int, (value % 256) as u8).update(
                offset + 1,
                ((value / 256) % 256) as u8,
            ).update(offset + 2, ((value / 65536) % 256) as u8).update(
                offset + 3,
                (value / 16777216) as u8,
            ),
            !in_bounds(old(self)@.len(), offset as int, 4) ==> (r matches Err(Error::Range)
                && final(self)@ == old(self)@),
    {
        let len = self.bytes.len();
        if offset < len && len - offset >= 4 {
            self.bytes.set(offset, (value % 256) as u8);
            self.bytes.set(offset + 1, ((value / 256) % 256) as u8);
            self.bytes.set(offset + 2, ((value / 65536) % 256) as u8);
            self.bytes.set(offset + 3, (value / 16777216) as u8);
            Ok(())
        } else {
            Err(Error::Range)
        }
    }
}

} // verus!
