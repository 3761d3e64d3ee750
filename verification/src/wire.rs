//! Wire primitives: byte-order conversion between 16-bit integers and
//! byte pairs, byte-vector helpers, and a bit-level writer that builds
//! packets most-significant-bit first.

use vstd::prelude::*;

verus! {

/// The high byte of a 16-bit integer in big-endian order.
pub open spec fn u16_hi(v: u16) -> u8 {
    (v / 256) as u8
}

/// The low byte of a 16-bit integer in big-endian order.
pub open spec fn u16_lo(v: u16) -> u8 {
    (v % 256) as u8
}

/// The 16-bit integer read big-endian from two bytes.
pub open spec fn be16(hi: u8, lo: u8) -> u16 {
    (hi * 256 + lo) as u16
}

/// Splitting a 16-bit integer into bytes and reading them back is the
/// identity.
pub proof fn lemma_be16_of_split(v: u16)
    ensures
        be16(u16_hi(v), u16_lo(v)) == v,
{
}

/// Split a 16-bit integer into its big-endian byte pair.
pub fn convert_u16_to_two_u8s(num: u16) -> (r: [u8; 2])
    ensures
        r@ == seq![u16_hi(num), u16_lo(num)],
{
    let r = [(num / 256) as u8, (num % 256) as u8];
    proof {
        assert(r@ =~= seq![u16_hi(num), u16_lo(num)]);
    }
    r
}

/// Read a 16-bit integer big-endian from two bytes.
pub fn convert_two_u8s_to_u16(hi: u8, lo: u8) -> (r: u16)
    ensures
        r == be16(hi, lo),
{
    hi as u16 * 256 + lo as u16
}

/// Prepend a slice to the front of a vector.
pub fn prepend<T: Copy>(v: Vec<T>, s: &[T]) -> (r: Vec<T>)
    ensures
        r@ == s@ + v@,
{
    let mut tmp: Vec<T> = Vec::new();
    let mut i: usize = 0;
    while i < s.len()
        invariant
            i <= s@.len(),
            tmp@ == s@.subrange(0, i as int),
        decreases s@.len() - i,
    {
        tmp.push(s[i]);
        i += 1;
        proof {
            assert(tmp@ =~= s@.subrange(0, i as int));
        }
    }
    proof {
        assert(s@.subrange(0, s@.len() as int) =~= s@);
    }
    let mut moved = v;
    tmp.append(&mut moved);
    tmp
}

/// Push one byte value onto a vector a given number of times.
pub fn push_byte_vec(bytes: &mut Vec<u8>, repeat: u8, item: u8)
    ensures
        final(bytes)@ == old(bytes)@ + Seq::new(repeat as nat, |i: int| item),
{
    let mut k: u8 = 0;
    while k < repeat
        invariant
            k <= repeat,
            bytes@ == old(bytes)@ + Seq::new(k as nat, |i: int| item),
        decreases repeat - k,
    {
        bytes.push(item);
        k += 1;
        proof {
            assert(bytes@ =~= old(bytes)@ + Seq::new(k as nat, |i: int| item));
        }
    }
}

/// Select one of two values according to a single wire bit.
pub fn bit_assign<T>(is_zero: T, is_one: T, bit: bool) -> (r: T)
    ensures
        r == if bit {
            is_one
        } else {
            is_zero
        },
{
    if bit {
        is_one
    } else {
        is_zero
    }
}

/// The value of the single bit at position `r` of a byte, counting the
/// most significant bit as position 0.
pub open spec fn bit_value_at(r: nat) -> u8 {
    if r == 0 {
        128
    } else if r == 1 {
        64
    } else if r == 2 {
        32
    } else if r == 3 {
        16
    } else if r == 4 {
        8
    } else if r == 5 {
        4
    } else if r == 6 {
        2
    } else {
        1
    }
}

/// Whether the low bits of a byte are zero once its first `used` bits
/// (counted from the most significant) have been consumed.
pub open spec fn trailing_bits_clear(b: u8, used: nat) -> bool {
    if used == 1 {
        b % 128 == 0
    } else if used == 2 {
        b % 64 == 0
    } else if used == 3 {
        b % 32 == 0
    } else if used == 4 {
        b % 16 == 0
    } else if used == 5 {
        b % 8 == 0
    } else if used == 6 {
        b % 4 == 0
    } else if used == 7 {
        b % 2 == 0
    } else {
        true
    }
}

/// A writer that assembles a packet bit by bit, most significant bit of
/// each byte first, growing its byte buffer as the bit offset advances.
pub struct BitWriter {
    pub bytes: Vec<u8>,
    /// Offset in bits.
    pub offset: usize,
}

pub trait Methods: Sized {
    /// The bytes assembled so far.
    spec fn buf(&self) -> Seq<u8>;

    /// The current offset, in bits.
    spec fn bit_offset(&self) -> nat;

    /// The buffer always covers exactly the bits written or skipped so
    /// far, and bits of the last byte past the offset are still zero.
    spec fn inv(&self) -> bool;

    fn new() -> (w: Self)
        ensures
            w.inv(),
            w.buf() == Seq::<u8>::empty(),
            w.bit_offset() == 0,
    ;

    /// Skip an arbitrary number of bits, leaving them zero.
    fn skip(&mut self, num: u8)
        requires
            old(self).inv(),
            old(self).bit_offset() + num <= usize::MAX,
        ensures
            final(self).inv(),
            final(self).bit_offset() == old(self).bit_offset() + num,
            final(self).buf() == old(self).buf() + Seq::new(
                (final(self).buf().len() - old(self).buf().len()) as nat,
                |i: int| 0u8,
            ),
    ;

    /// Set the bit at the current offset: true writes 1, false writes 0.
    fn write_one(&mut self, set_to: bool)
        requires
            old(self).inv(),
            old(self).bit_offset() + 1 <= usize::MAX,
        ensures
            final(self).inv(),
            final(self).bit_offset() == old(self).bit_offset() + 1,
            old(self).bit_offset() % 8 == 0 ==> final(self).buf() == old(self).buf().push(
                if set_to {
                    128u8
                } else {
                    0u8
                },
            ),
            old(self).bit_offset() % 8 != 0 ==> final(self).buf() == old(self).buf().update(
                old(self).buf().len() - 1,
                if set_to {
                    (old(self).buf().last() + bit_value_at(old(self).bit_offset() % 8)) as u8
                } else {
                    old(self).buf().last()
                },
            ),
    ;

    /// Write an eight-bit unsigned integer at a byte-aligned offset.
    fn write_u8(&mut self, set_to: u8)
        requires
            old(self).inv(),
            old(self).bit_offset() % 8 == 0,
            old(self).bit_offset() + 8 <= usize::MAX,
        ensures
            final(self).inv(),
            final(self).bit_offset() == old(self).bit_offset() + 8,
            final(self).buf() == old(self).buf().push(set_to),
    ;

    /// Write a sixteen-bit unsigned integer big-endian at a byte-aligned
    /// offset.
    fn write_u16(&mut self, set_to: u16)
        requires
            old(self).inv(),
            old(self).bit_offset() % 8 == 0,
            old(self).bit_offset() + 16 <= usize::MAX,
        ensures
            final(self).inv(),
            final(self).bit_offset() == old(self).bit_offset() + 16,
            final(self).buf() == old(self).buf().push(u16_hi(set_to)).push(u16_lo(set_to)),
    ;
}

impl Methods for BitWriter {
    open spec fn buf(&self) -> Seq<u8> {
        self.bytes@
    }

    open spec fn bit_offset(&self) -> nat {
        self.offset as nat
    }

    open spec fn inv(&self) -> bool {
        &&& self.bytes@.len() == (self.offset + 7) / 8
        &&& self.offset % 8 != 0 ==> trailing_bits_clear(self.bytes@.last(), (self.offset % 8) as nat)
    }

    fn new() -> (w: BitWriter) {
        BitWriter { bytes: Vec::new(), offset: 0 }
    }

    fn skip(&mut self, num: u8) {
        let mut k: u8 = 0;
        while k < num
            invariant
                k <= num,
                self.inv(),
                self.offset == old(self).offset + k,
                self.bytes@ == old(self).bytes@ + Seq::new(
                    (self.bytes@.len() - old(self).bytes@.len()) as nat,
                    |i: int| 0u8,
                ),
                self.offset + num - k <= usize::MAX,
            decreases num - k,
        {
            self.write_one(false);
            k += 1;
            proof {
                assert(self.bytes@ =~= old(self).bytes@ + Seq::new(
                    (self.bytes@.len() - old(self).bytes@.len()) as nat,
                    |i: int| 0u8,
                ));
            }
        }
    }

    fn write_one(&mut self, set_to: bool) {
        let r = self.offset % 8;
        if r == 0 {
            self.bytes.push(if set_to { 128 } else { 0 });
        } else if set_to {
            let idx = self.bytes.len() - 1;
            let last = self.bytes[idx];
            let mask: u8 = if r == 1 {
                64
            } else if r == 2 {
                32
            } else if r == 3 {
                16
            } else if r == 4 {
                8
            } else if r == 5 {
                4
            } else if r == 6 {
                2
            } else {
                1
            };
            self.bytes[idx] = last + mask;
        }
        self.offset = self.offset + 1;
    }

    fn write_u8(&mut self, set_to: u8) {
        self.bytes.push(set_to);
        self.offset = self.offset + 8;
    }

    fn write_u16(&mut self, set_to: u16) {
        self.bytes.push((set_to / 256) as u8);
        self.bytes.push((set_to % 256) as u8);
        self.offset = self.offset + 16;
    }
}

} // verus!
