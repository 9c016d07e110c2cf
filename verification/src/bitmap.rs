//! Bit-packed boolean storage.
//!
//! A [`Bitmap`] stores a logical sequence of booleans at one bit per element,
//! least-significant bit first within each byte. An explicit bit `offset`
//! into the backing bytes allows a bitmap to alias a sub-range of a buffer,
//! including ranges that start in the middle of a byte, without copying.

use vstd::prelude::*;

verus! {

/// Bit `k` of a packed byte sequence, counting from bit 0 of byte 0 with the
/// least-significant bit first within each byte.
pub open spec fn bit_at(bytes: Seq<u8>, k: int) -> bool {
    bytes[k / 8] & (1u8 << ((k % 8) as u8)) != 0
}

/// The number of bytes needed to hold `n` bits.
pub open spec fn bytes_for(n: int) -> int {
    (n + 7) / 8
}

/// Division and remainder by 8, as byte and bit address of a bit position.
proof fn lemma_div8(g: int)
    requires
        g >= 0,
    ensures
        g == 8 * (g / 8) + g % 8,
        0 <= g % 8 < 8,
{
    vstd::arithmetic::div_mod::lemma_fundamental_div_mod(g, 8);
    vstd::arithmetic::div_mod::lemma_mod_division_less_than_divisor(g, 8);
}

/// A bit position `g` with `8 * q <= g < 8 * q + 8` lies in byte `q`.
proof fn lemma_div8_range(g: int, q: int)
    requires
        8 * q <= g < 8 * q + 8,
    ensures
        g / 8 == q,
        g % 8 == g - 8 * q,
{
    vstd::arithmetic::div_mod::lemma_fundamental_div_mod(g, 8);
    vstd::arithmetic::div_mod::lemma_mod_division_less_than_divisor(g, 8);
}

/// Bit 0 of a byte that is 0 or 1 is the byte itself; the other bits are 0.
proof fn lemma_low_byte_bits(byte: u8)
    by (bit_vector)
    requires
        byte == 0 || byte == 1,
    ensures
        (byte & (1u8 << 0u8) != 0) == (byte == 1),
        forall|j: u8| 1 <= j < 8 ==> byte & (1u8 << j) == 0,
{
}

/// Setting bit `t` makes bit `t` nonzero.
proof fn lemma_or_bit_set(x: u8, t: u8)
    by (bit_vector)
    requires
        t < 8,
    ensures
        (x | (1u8 << t)) & (1u8 << t) != 0,
{
}

/// Setting bit `t` leaves every other bit as it was.
proof fn lemma_or_bit_other(x: u8, t: u8, j: u8)
    by (bit_vector)
    requires
        t < 8,
        j < 8,
        j != t,
    ensures
        ((x | (1u8 << t)) & (1u8 << j)) == (x & (1u8 << j)),
{
}

/// A collection of bits.
///
/// The bits are stored LSB-first in the bytes of `buffer`; the logical
/// sequence starts `offset` bits into the buffer and is `bits` long.
#[derive(Debug)]
pub struct Bitmap {
    /// The bits are stored in this buffer of bytes.
    pub buffer: Vec<u8>,
    /// The number of bits stored in the bitmap.
    pub bits: usize,
    /// An offset (in number of bits) into the buffer. This enables zero-copy
    /// slicing of the bitmap on non-byte boundaries.
    pub offset: usize,
}

impl View for Bitmap {
    type V = Seq<bool>;

    open spec fn view(&self) -> Seq<bool> {
        Seq::new(self.bits as nat, |i: int| bit_at(self.buffer@, self.offset + i))
    }
}

impl Bitmap {
    /// The buffer holds enough bytes for the bits and the offset.
    pub open spec fn wf(&self) -> bool {
        &&& self.offset + self.bits <= self.buffer@.len() * 8
        &&& self.offset + self.bits <= usize::MAX
    }

    /// The buffer holds exactly the bytes the bits need, and every bit
    /// position past the logical end is zero. Bulk construction and append
    /// establish and preserve this shape; it is what makes the packed bytes
    /// a function of the logical sequence alone.
    pub open spec fn packed(&self) -> bool {
        &&& self.wf()
        &&& self.buffer@.len() == bytes_for(self.offset + self.bits)
        &&& forall|k: int|
            self.offset + self.bits <= k < self.buffer@.len() * 8 ==> !bit_at(self.buffer@, k)
    }

    /// Forms a Bitmap from a buffer, a number of bits and an offset (in
    /// bits). The caller must show that the buffer contains enough bytes for
    /// the specified number of bits including the offset.
    pub fn from_raw_parts(buffer: Vec<u8>, bits: usize, offset: usize) -> (r: Self)
        requires
            offset + bits <= buffer@.len() * 8,
            offset + bits <= usize::MAX,
        ensures
            r == (Bitmap { buffer, bits, offset }),
            r.wf(),
    {
        Bitmap { buffer, bits, offset }
    }

    /// The number of bits stored in the bitmap.
    pub fn len(&self) -> (r: usize)
        ensures
            r == self@.len(),
    {
        self.bits
    }

    /// Whether the bitmap stores no bits.
    pub fn is_empty(&self) -> (r: bool)
        ensures
            r == (self@.len() == 0),
    {
        self.bits == 0
    }

    /// Returns the number of leading padding bits in the first byte(s) of the
    /// buffer that contain no meaningful bits.
    pub fn leading_bits(&self) -> (r: usize)
        ensures
            r == self.offset,
    {
        self.offset
    }

    /// Returns the number of trailing padding bits in the last byte of the
    /// buffer that contain no meaningful bits.
    pub fn trailing_bits(&self) -> (r: usize)
        requires
            self.offset + self.bits <= usize::MAX,
        ensures
            r == if (self.offset + self.bits) % 8 == 0 {
                0int
            } else {
                8 - (self.offset + self.bits) % 8
            },
    {
        let trailing_bits = (self.offset + self.bits) % 8;
        if trailing_bits != 0 {
            8 - trailing_bits
        } else {
            0
        }
    }

    /// Returns the bit index within its byte for the element at the provided
    /// index. See [`Bitmap::byte_index`].
    pub fn bit_index(&self, index: usize) -> (r: usize)
        requires
            self.offset + index <= usize::MAX,
        ensures
            r == (self.offset + index) % 8,
    {
        (self.offset + index) % 8
    }

    /// Returns the byte index in the buffer for the element at the provided
    /// index. See [`Bitmap::bit_index`].
    pub fn byte_index(&self, index: usize) -> (r: usize)
        requires
            self.offset + index <= usize::MAX,
        ensures
            r == (self.offset + index) / 8,
    {
        (self.offset + index) / 8
    }

    /// Returns the bit at the given bit index. The caller must show the index
    /// is within bounds.
    pub fn get_unchecked(&self, index: usize) -> (r: bool)
        requires
            self.wf(),
            index < self.bits,
        ensures
            r == self@[index as int],
    {
        let position = self.offset + index;
        let byte_index = position / 8;
        let bit_index = (position % 8) as u8;
        proof {
            assert(position < self.buffer@.len() * 8);
            assert(position / 8 < self.buffer@.len()) by (nonlinear_arith)
                requires
                    position < self.buffer@.len() * 8,
            ;
        }
        let byte = self.buffer[byte_index];
        byte & (1u8 << bit_index) != 0
    }

    /// Appends one bit at the logical end of the bitmap. When the bitmap ends
    /// mid-byte the bit is placed in the remaining positions of the last byte
    /// without disturbing previously written bits; otherwise a fresh byte is
    /// started.
    pub fn push(&mut self, bit: bool)
        requires
            old(self).packed(),
            old(self).offset + old(self).bits < usize::MAX,
        ensures
            final(self).packed(),
            final(self).offset == old(self).offset,
            final(self)@ == old(self)@.push(bit),
    {
        let position = self.offset + self.bits;
        let ghost q = position as int / 8;
        let ghost r = position as int % 8;
        let ghost prior = *old(self);
        proof {
            lemma_div8(position as int);
        }
        let bit_pos = (position % 8) as u8;
        if bit_pos == 0 {
            let byte: u8 = if bit {
                1
            } else {
                0
            };
            proof {
                lemma_low_byte_bits(byte);
                // The buffer is exactly full: it has bytes_for(position) == q bytes.
                lemma_div8_range(position as int + 7, q);
            }
            self.buffer.push(byte);
            proof {
                assert forall|g: int| prior.offset <= g < position implies bit_at(
                    self.buffer@,
                    g,
                ) == bit_at(prior.buffer@, g) by {
                    lemma_div8(g);
                }
                assert(bit_at(self.buffer@, position as int) == bit);
                assert forall|k: int|
                    position + 1 <= k < self.buffer@.len() * 8 implies !bit_at(
                    self.buffer@,
                    k,
                ) by {
                    lemma_div8_range(k, q);
                }
                lemma_div8_range(position as int + 8, q + 1);
            }
        } else {
            let byte_index = position / 8;
            proof {
                // The last byte is byte q; the buffer has q + 1 bytes.
                lemma_div8_range(position as int + 7, q + 1);
                lemma_div8_range(position as int + 8, q + 1);
            }
            if bit {
                let byte = self.buffer[byte_index];
                let updated = byte | (1u8 << bit_pos);
                proof {
                    lemma_or_bit_set(byte, bit_pos);
                    assert forall|j: u8| j < 8 && j != bit_pos implies (updated & (1u8 << j)) == (
                    byte & (1u8 << j)) by {
                        lemma_or_bit_other(byte, bit_pos, j);
                    }
                }
                self.buffer.set(byte_index, updated);
                proof {
                    assert forall|g: int| prior.offset <= g < position implies bit_at(
                        self.buffer@,
                        g,
                    ) == bit_at(prior.buffer@, g) by {
                        lemma_div8(g);
                        if g / 8 == q {
                            assert(g % 8 != r);
                        }
                    }
                    assert(bit_at(self.buffer@, position as int) == bit);
                    assert forall|k: int|
                        position + 1 <= k < self.buffer@.len() * 8 implies !bit_at(
                        self.buffer@,
                        k,
                    ) by {
                        lemma_div8_range(k, q);
                        assert(!bit_at(prior.buffer@, k));
                    }
                }
            } else {
                proof {
                    assert(!bit_at(self.buffer@, position as int));
                }
            }
        }
        self.bits = self.bits + 1;
        proof {
            assert(self@ =~= prior@.push(bit));
        }
    }

    /// Bulk construction from a finite boolean sequence, packing the bits
    /// eight to a byte and leaving the unused high bits of a final partial
    /// byte zero.
    pub fn from_bools(values: &Vec<bool>) -> (r: Self)
        ensures
            r.packed(),
            r.offset == 0,
            r@ == values@,
    {
        let mut r = Bitmap { buffer: Vec::new(), bits: 0, offset: 0 };
        let mut i: usize = 0;
        while i < values.len()
            invariant
                r.packed(),
                r.offset == 0,
                r.bits == i,
                i <= values@.len(),
                r@ == values@.subrange(0, i as int),
            decreases values@.len() - i,
        {
            r.push(values[i]);
            i = i + 1;
            proof {
                assert(r@ =~= values@.subrange(0, i as int));
            }
        }
        proof {
            assert(values@.subrange(0, values@.len() as int) =~= values@);
        }
        r
    }

    /// Appends all bits of `values` at the logical end of the bitmap. The
    /// result is the same, byte for byte, as bulk construction over the
    /// concatenation of the previous contents and `values` (see
    /// [`lemma_packed_bytes_unique`]).
    pub fn extend(&mut self, values: &Vec<bool>)
        requires
            old(self).packed(),
            old(self).offset + old(self).bits + values@.len() <= usize::MAX,
        ensures
            final(self).packed(),
            final(self).offset == old(self).offset,
            final(self)@ == old(self)@ + values@,
    {
        let mut i: usize = 0;
        while i < values.len()
            invariant
                self.packed(),
                self.offset == old(self).offset,
                self.bits == old(self).bits + i,
                i <= values@.len(),
                old(self).offset + old(self).bits + values@.len() <= usize::MAX,
                self@ == old(self)@ + values@.subrange(0, i as int),
            decreases values@.len() - i,
        {
            self.push(values[i]);
            i = i + 1;
            proof {
                assert(self@ =~= old(self)@ + values@.subrange(0, i as int));
            }
        }
        proof {
            assert(old(self)@ + values@.subrange(0, values@.len() as int) =~= old(self)@
                + values@);
        }
    }

    /// Unpacks the logical sequence into one boolean per element, skipping
    /// the `offset` bits in front and stopping after `bits` elements. This is
    /// how sub-byte slices are read out without copying bytes.
    pub fn to_vec(&self) -> (r: Vec<bool>)
        requires
            self.wf(),
        ensures
            r@ == self@,
    {
        let mut r: Vec<bool> = Vec::new();
        let mut i: usize = 0;
        while i < self.bits
            invariant
                self.wf(),
                i <= self.bits,
                r@ == self@.subrange(0, i as int),
            decreases self.bits - i,
        {
            let b = self.get_unchecked(i);
            r.push(b);
            i = i + 1;
            proof {
                assert(r@ =~= self@.subrange(0, i as int));
            }
        }
        proof {
            assert(self@.subrange(0, self.bits as int) =~= self@);
        }
        r
    }

    /// Returns a reference to the backing byte buffer.
    pub fn buffer_ref(&self) -> (r: &Vec<u8>)
        ensures
            *r == self.buffer,
    {
        &self.buffer
    }

    /// Returns a mutable reference to the backing byte buffer. The logical
    /// length and offset are untouched; the caller is responsible for
    /// whatever shape the bytes need afterwards.
    pub fn buffer_ref_mut(&mut self) -> (r: &mut Vec<u8>)
        ensures
            *r == old(self).buffer,
            final(self).buffer == *final(r),
            final(self).bits == old(self).bits,
            final(self).offset == old(self).offset,
    {
        &mut self.buffer
    }

    /// Returns the bit at the given bit index, or `None` when the index is
    /// out of bounds.
    pub fn get(&self, index: usize) -> (r: Option<bool>)
        requires
            self.wf(),
        ensures
            r == if index < self@.len() {
                Some(self@[index as int])
            } else {
                None::<bool>
            },
    {
        if index < self.bits {
            Some(self.get_unchecked(index))
        } else {
            None
        }
    }
}

impl crate::buffer::Length for Bitmap {
    open spec fn spec_len(&self) -> nat {
        self@.len()
    }

    fn len(&self) -> (r: usize) {
        self.bits
    }
}

impl Default for Bitmap {
    /// The empty bitmap: no bytes, no bits, offset zero.
    fn default() -> (r: Self)
        ensures
            r.packed(),
            r.offset == 0,
            r@ == Seq::<bool>::empty(),
    {
        Bitmap { buffer: Vec::new(), bits: 0, offset: 0 }
    }
}

/// An immutable reference to a bitmap.
pub trait BitmapRef {
    /// The bitmap this value exposes.
    spec fn spec_bitmap(&self) -> Bitmap;

    /// Returns a reference to an immutable [`Bitmap`].
    fn bitmap_ref(&self) -> (r: &Bitmap)
        ensures
            *r == self.spec_bitmap(),
    ;
}

/// A mutable reference to a bitmap.
pub trait BitmapRefMut: BitmapRef {
    /// Returns a mutable reference to the [`Bitmap`].
    fn bitmap_ref_mut(&mut self) -> (r: &mut Bitmap)
        ensures
            *r == old(self).spec_bitmap(),
            final(self).spec_bitmap() == *final(r),
    ;
}

impl BitmapRef for Bitmap {
    open spec fn spec_bitmap(&self) -> Bitmap {
        *self
    }

    fn bitmap_ref(&self) -> (r: &Bitmap) {
        self
    }
}

impl BitmapRefMut for Bitmap {
    fn bitmap_ref_mut(&mut self) -> (r: &mut Bitmap) {
        self
    }
}

/// Two bytes that agree on each of their eight bits are equal.
proof fn lemma_u8_eq_by_bits(x: u8, y: u8)
    requires
        forall|k: u8| k < 8 ==> ((x & (1u8 << k) != 0) == (y & (1u8 << k) != 0)),
    ensures
        x == y,
{
    assert(x == y) by (bit_vector)
        requires
            ((x & (1u8 << 0u8) != 0) == (y & (1u8 << 0u8) != 0)),
            ((x & (1u8 << 1u8) != 0) == (y & (1u8 << 1u8) != 0)),
            ((x & (1u8 << 2u8) != 0) == (y & (1u8 << 2u8) != 0)),
            ((x & (1u8 << 3u8) != 0) == (y & (1u8 << 3u8) != 0)),
            ((x & (1u8 << 4u8) != 0) == (y & (1u8 << 4u8) != 0)),
            ((x & (1u8 << 5u8) != 0) == (y & (1u8 << 5u8) != 0)),
            ((x & (1u8 << 6u8) != 0) == (y & (1u8 << 6u8) != 0)),
            ((x & (1u8 << 7u8) != 0) == (y & (1u8 << 7u8) != 0)),
    ;
}

/// With a fixed zero offset, the packed byte shape is a function of the
/// logical sequence alone: two packed bitmaps that hold the same logical
/// sequence agree byte for byte. Together with the contracts of
/// [`Bitmap::from_bools`] and [`Bitmap::extend`], this says that bulk
/// construction over a concatenation and construction followed by any chain
/// of appends produce identical buffers.
pub proof fn lemma_packed_bytes_unique(a: Bitmap, b: Bitmap)
    requires
        a.packed(),
        b.packed(),
        a.offset == 0,
        b.offset == 0,
        a@ == b@,
    ensures
        a.bits == b.bits,
        a.buffer@ == b.buffer@,
{
    assert(a@.len() == a.bits as nat);
    assert(b@.len() == b.bits as nat);
    assert(a.bits == b.bits);
    assert(a.buffer@.len() == b.buffer@.len());
    assert forall|j: int| 0 <= j < a.buffer@.len() implies a.buffer@[j] == b.buffer@[j] by {
        assert forall|k: u8| k < 8 implies ((a.buffer@[j] & (1u8 << k) != 0) == (b.buffer@[j] & (
        1u8 << k) != 0)) by {
            let g = 8 * j + k;
            lemma_div8_range(g, j);
            assert((g % 8) as u8 == k);
            assert(bit_at(a.buffer@, g) == (a.buffer@[j] & (1u8 << k) != 0));
            assert(bit_at(b.buffer@, g) == (b.buffer@[j] & (1u8 << k) != 0));
            if g < a.bits {
                assert(a@[g] == bit_at(a.buffer@, a.offset + g));
                assert(b@[g] == bit_at(b.buffer@, b.offset + g));
                assert(a@[g] == b@[g]);
            } else {
                assert(g < a.buffer@.len() * 8);
                assert(!bit_at(a.buffer@, g));
                assert(!bit_at(b.buffer@, g));
            }
        }
        lemma_u8_eq_by_bits(a.buffer@[j], b.buffer@[j]);
    }
    assert(a.buffer@ =~= b.buffer@);
}

} // verus!
