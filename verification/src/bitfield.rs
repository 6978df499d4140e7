//! Fixed-size bitset over piece indices.
//!
//! A bitfield is a byte string, one bit per piece index, index 0 mapped to
//! the most significant bit of byte 0.  The byte length is fixed at
//! construction; bits past the piece count are padding and stay zero.

use vstd::pervasive::VecAdditionalExecFns;
use vstd::prelude::*;

verus! {

/// Failure of a bitset operation: an index past the end of the field, or two
/// fields of different lengths combined.
#[derive(Debug, Clone, Copy, PartialEq, Eq, Structural)]
pub struct BitfieldError;

/// Bit `off` of byte `b`, counting position 0 as the most significant bit.
pub open spec fn byte_bit(b: u8, off: u8) -> bool
    recommends
        off < 8,
{
    (b >> ((7 - off) as u8)) & 1u8 == 1u8
}

/// Mask selecting, within its byte, the bit that holds piece `index`.
pub open spec fn mask_of(index: u32) -> u8 {
    1u8 << ((7 - index % 8) as u8)
}

/// Bit `i` of a byte string, bit 0 being the most significant bit of byte 0.
/// Positions past the end read as zero.
pub open spec fn bit_at(bytes: Seq<u8>, i: nat) -> bool {
    &&& i / 8 < bytes.len()
    &&& byte_bit(bytes[(i / 8) as int], (i % 8) as u8)
}

/// Number of bytes that hold `count` bits: `count / 8`, rounded up.
pub open spec fn bytes_for(count: u32) -> nat {
    ((count + 7) / 8) as nat
}

proof fn lemma_set_bit(b: u8, off: u8, j: u8)
    by (bit_vector)
    requires
        off < 8,
        j < 8,
    ensures
        byte_bit(b | (1u8 << ((7 - off) as u8)), j) == (j == off || byte_bit(b, j)),
{
}

proof fn lemma_clear_bit(b: u8, off: u8, j: u8)
    by (bit_vector)
    requires
        off < 8,
        j < 8,
    ensures
        byte_bit(b & (0xffu8 ^ (1u8 << ((7 - off) as u8))), j) == (j != off && byte_bit(b, j)),
{
}

proof fn lemma_test_bit(b: u8, off: u8)
    by (bit_vector)
    requires
        off < 8,
    ensures
        ((b & (1u8 << ((7 - off) as u8))) > 0) == byte_bit(b, off),
{
}

proof fn lemma_full_byte(off: u8)
    by (bit_vector)
    requires
        off < 8,
    ensures
        byte_bit(0xffu8, off),
{
}

proof fn lemma_partial_byte(rem: u8, off: u8)
    by (bit_vector)
    requires
        0 < rem < 8,
        off < 8,
    ensures
        byte_bit(0xffu8 << ((8 - rem) as u8), off) == (off < rem),
{
}

proof fn lemma_zero_byte(off: u8)
    by (bit_vector)
    requires
        off < 8,
    ensures
        !byte_bit(0u8, off),
{
}

proof fn lemma_interest_byte(a: u8, b: u8, j: u8)
    by (bit_vector)
    requires
        j < 8,
    ensures
        byte_bit((a & b) ^ b, j) == (byte_bit(b, j) && !byte_bit(a, j)),
        ((a & b) ^ b) & a == 0,
{
}

/// The byte holding piece `index`, and the mask selecting its bit within
/// that byte.
pub fn calc_byte_index_and_mask(index: u32) -> (r: (usize, u8))
    ensures
        r.0 == index / 8,
        r.1 == mask_of(index),
{
    let offset: u8 = (index % 8) as u8;
    ((index / 8) as usize, 1u8 << (7 - offset))
}

/// Bitset over piece indices, stored most-significant-bit first.
pub trait Bitfield: Sized {
    /// The bytes of the field.
    spec fn bf(&self) -> Seq<u8>;

    /// A field of `count` bits, all clear.
    fn empty(count: u32) -> (r: Self)
        ensures
            r.bf().len() == bytes_for(count),
            forall|i: nat| !bit_at(r.bf(), i),
            forall|i: int| 0 <= i < r.bf().len() ==> r.bf()[i] == 0u8,
    ;

    /// A field of `count` bits, every bit below `count` set and the padding
    /// bits in the last byte clear.
    fn full(count: u32) -> (r: Self)
        ensures
            r.bf().len() == bytes_for(count),
            forall|i: nat| #[trigger] bit_at(r.bf(), i) == (i < count),
            forall|i: int| 0 <= i < count / 8 ==> r.bf()[i] == 0xffu8,
            count % 8 != 0 ==> r.bf()[count as int / 8] == (0xffu8 << ((8 - count % 8) as u8)),
    ;

    /// Sets bit `index`; rejects an index past the end of the field.
    fn add_bit(&mut self, index: u32) -> (r: Result<(), BitfieldError>)
        ensures
            final(self).bf().len() == old(self).bf().len(),
            r is Ok <==> index / 8 < old(self).bf().len(),
            r is Err ==> final(self).bf() == old(self).bf(),
            r is Ok ==> final(self).bf() == old(self).bf().update(
                index as int / 8,
                old(self).bf()[index as int / 8] | mask_of(index),
            ),
            r is Ok ==> forall|j: nat|
                #[trigger] bit_at(final(self).bf(), j) == (j == index || bit_at(
                    old(self).bf(),
                    j,
                )),
    ;

    /// Clears bit `index`; rejects an index past the end of the field.
    fn remove_bit(&mut self, index: u32) -> (r: Result<(), BitfieldError>)
        ensures
            final(self).bf().len() == old(self).bf().len(),
            r is Ok <==> index / 8 < old(self).bf().len(),
            r is Err ==> final(self).bf() == old(self).bf(),
            r is Ok ==> final(self).bf() == old(self).bf().update(
                index as int / 8,
                old(self).bf()[index as int / 8] & (0xffu8 ^ mask_of(index)),
            ),
            r is Ok ==> forall|j: nat|
                #[trigger] bit_at(final(self).bf(), j) == (j != index && bit_at(
                    old(self).bf(),
                    j,
                )),
    ;

    /// Whether bit `index` is set; positions past the end read as clear.
    fn have_bit(&self, index: u32) -> (r: bool)
        ensures
            r == bit_at(self.bf(), index as nat),
    ;

    /// Per byte, `(mine & other) ^ other`: the bits the other side has that
    /// this side lacks.  Rejects fields of different lengths.
    fn interest(&self, rhs: &Self) -> (r: Result<Self, BitfieldError>)
        ensures
            r is Ok <==> self.bf().len() == rhs.bf().len(),
            r matches Ok(o) ==> o.bf().len() == self.bf().len(),
            r matches Ok(o) ==> forall|i: int|
                0 <= i < o.bf().len() ==> o.bf()[i] == ((self.bf()[i] & rhs.bf()[i]) ^ rhs.bf()[i]),
            r matches Ok(o) ==> forall|i: nat|
                #[trigger] bit_at(o.bf(), i) == (bit_at(rhs.bf(), i) && !bit_at(self.bf(), i)),
    ;
}

impl Bitfield for Vec<u8> {
    open spec fn bf(&self) -> Seq<u8> {
        self@
    }

    fn empty(count: u32) -> (r: Self) {
        let capacity: usize = ((count / 8) + (if count % 8 != 0 {
            1u32
        } else {
            0u32
        })) as usize;
        let ret: Vec<u8> = vec![0u8; capacity];
        proof {
            assert(count / 8 + (if count % 8 != 0 {
                1int
            } else {
                0int
            }) == (count + 7) / 8) by (nonlinear_arith);
            assert forall|i: nat| !bit_at(ret@, i) by {
                if i / 8 < ret@.len() {
                    lemma_zero_byte((i % 8) as u8);
                }
            }
        }
        ret
    }

    fn full(count: u32) -> (r: Self) {
        let rem: u8 = (count % 8) as u8;
        let mut ret: Vec<u8> = vec![0xffu8; (count / 8) as usize];
        if rem != 0 {
            ret.push(0xffu8 << (8 - rem));
        }
        proof {
            assert(count / 8 + (if count % 8 != 0 {
                1int
            } else {
                0int
            }) == (count + 7) / 8) by (nonlinear_arith);
            assert forall|i: nat| #[trigger] bit_at(ret@, i) == (i < count) by {
                if i / 8 < ret@.len() {
                    if i / 8 < count / 8 {
                        lemma_full_byte((i % 8) as u8);
                        assert(i < count) by (nonlinear_arith)
                            requires
                                i / 8 < count / 8,
                        ;
                    } else {
                        lemma_partial_byte(rem, (i % 8) as u8);
                        assert(i / 8 == count / 8);
                        assert((i % 8 < count % 8) == (i < count)) by (nonlinear_arith)
                            requires
                                i / 8 == count / 8,
                        ;
                    }
                } else {
                    assert(i >= count) by (nonlinear_arith)
                        requires
                            i / 8 >= (count + 7) / 8,
                    ;
                }
            }
        }
        ret
    }

    fn add_bit(&mut self, index: u32) -> (r: Result<(), BitfieldError>) {
        let (byte_index, mask) = calc_byte_index_and_mask(index);
        if byte_index >= self.len() {
            Err(BitfieldError)
        } else {
            let byte: u8 = self[byte_index];
            self.set(byte_index, byte | mask);
            proof {
                assert forall|j: nat|
                    #[trigger] bit_at(self@, j) == (j == index || bit_at(old(self)@, j)) by {
                    if j / 8 < self@.len() {
                        lemma_set_bit(old(self)@[(j / 8) as int], (index % 8) as u8, (j % 8) as u8);
                        assert((j / 8 == index / 8 && j % 8 == index % 8) == (j == index))
                            by (nonlinear_arith);
                    } else {
                        assert(j != index) by (nonlinear_arith)
                            requires
                                j / 8 >= self@.len() && index / 8 < self@.len(),
                        ;
                    }
                }
            }
            Ok(())
        }
    }

    fn remove_bit(&mut self, index: u32) -> (r: Result<(), BitfieldError>) {
        let (byte_index, mask) = calc_byte_index_and_mask(index);
        let mask: u8 = 0xffu8 ^ mask;
        if byte_index >= self.len() {
            Err(BitfieldError)
        } else {
            let byte: u8 = self[byte_index];
            self.set(byte_index, byte & mask);
            proof {
                assert forall|j: nat|
                    #[trigger] bit_at(self@, j) == (j != index && bit_at(old(self)@, j)) by {
                    if j / 8 < self@.len() {
                        lemma_clear_bit(
                            old(self)@[(j / 8) as int],
                            (index % 8) as u8,
                            (j % 8) as u8,
                        );
                        assert((j / 8 == index / 8 && j % 8 == index % 8) == (j == index))
                            by (nonlinear_arith);
                    } else {
                        assert(j != index) by (nonlinear_arith)
                            requires
                                j / 8 >= self@.len() && index / 8 < self@.len(),
                        ;
                    }
                }
            }
            Ok(())
        }
    }

    fn have_bit(&self, index: u32) -> (r: bool) {
        let (byte_index, mask) = calc_byte_index_and_mask(index);
        if byte_index >= self.len() {
            false
        } else {
            let byte: u8 = self[byte_index];
            proof {
                lemma_test_bit(byte, (index % 8) as u8);
            }
            (byte & mask) > 0
        }
    }

    fn interest(&self, rhs: &Self) -> (r: Result<Self, BitfieldError>) {
        if self.len() != rhs.len() {
            Err(BitfieldError)
        } else {
            let mut out: Vec<u8> = Vec::new();
            let mut i: usize = 0;
            while i < self.len()
                invariant
                    i <= self.len(),
                    self.len() == rhs.len(),
                    out@.len() == i,
                    forall|k: int| 0 <= k < i ==> out@[k] == ((self@[k] & rhs@[k]) ^ rhs@[k]),
                decreases self.len() - i,
            {
                out.push((self[i] & rhs[i]) ^ rhs[i]);
                i = i + 1;
            }
            proof {
                assert forall|j: nat|
                    #[trigger] bit_at(out@, j) == (bit_at(rhs@, j) && !bit_at(self@, j)) by {
                    if j / 8 < out@.len() {
                        lemma_interest_byte(self@[(j / 8) as int], rhs@[(j / 8) as int], (j % 8) as u8);
                    }
                }
            }
            Ok(out)
        }
    }
}

/// The interest bits are among the other side's set bits and disjoint from
/// this side's: per byte, combining the result with `a` by bitwise and gives
/// zero.
pub proof fn lemma_interest_subset_disjoint(a: Seq<u8>, b: Seq<u8>, o: Seq<u8>)
    requires
        a.len() == b.len(),
        o.len() == a.len(),
        forall|i: int| 0 <= i < o.len() ==> o[i] == ((a[i] & b[i]) ^ b[i]),
    ensures
        forall|i: nat| #[trigger] bit_at(o, i) ==> bit_at(b, i),
        forall|i: nat| #[trigger] bit_at(o, i) ==> !bit_at(a, i),
        forall|i: int| 0 <= i < o.len() ==> #[trigger] (o[i] & a[i]) == 0,
{
    assert forall|i: nat| #[trigger] bit_at(o, i) implies bit_at(b, i) && !bit_at(a, i) by {
        if i / 8 < o.len() {
            lemma_interest_byte(a[(i / 8) as int], b[(i / 8) as int], (i % 8) as u8);
        }
    }
    assert forall|i: int| 0 <= i < o.len() implies #[trigger] (o[i] & a[i]) == 0 by {
        lemma_interest_byte(a[i], b[i], 0u8);
    }
}

} // verus!
