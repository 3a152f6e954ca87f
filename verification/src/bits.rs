//! A sequence of bits, and the integers that its fields hold.

use vstd::prelude::*;
use vstd::arithmetic::power2::*;
use bitvec::vec::BitVec;

verus! {

/// An ordered sequence of bits, kept in a `bitvec::vec::BitVec`.
#[verifier::external_body]
#[derive(Debug, PartialEq)]
pub struct Bits {
    inner: BitVec,
}

/// The bits that a `Bits` holds, first bit first.
pub uninterp spec fn bit_seq(bits: Bits) -> Seq<bool>;

impl View for Bits {
    type V = Seq<bool>;

    open spec fn view(&self) -> Seq<bool> {
        bit_seq(*self)
    }
}

impl Clone for Bits {
    fn clone(&self) -> (copy: Self)
        ensures
            copy@ == self@,
    {
        self.raw_clone()
    }
}

/// The most bits that a `Bits` can hold.
pub open spec fn max_bits() -> int {
    usize::MAX as int / 8
}

impl Bits {
    /// `BitVec::clone`: the copy holds the same bits in the same order.
    #[verifier::external_body]
    pub(crate) fn raw_clone(&self) -> (copy: Bits)
        ensures
            bit_seq(copy) == bit_seq(*self),
    {
        Bits { inner: self.inner.clone() }
    }

    /// `BitVec::new`: a sequence without bits.
    #[verifier::external_body]
    pub(crate) fn raw_new() -> (bits: Bits)
        ensures
            bit_seq(bits) == Seq::<bool>::empty(),
    {
        Bits { inner: BitVec::new() }
    }

    /// `BitVec::push`: `bit` is added behind the last bit. The call panics
    /// when the sequence already holds `usize::MAX >> 3` bits, so it is kept
    /// to shorter ones.
    #[verifier::external_body]
    pub(crate) fn raw_push(&mut self, bit: bool)
        requires
            bit_seq(*old(self)).len() < max_bits(),
        ensures
            bit_seq(*final(self)) == bit_seq(*old(self)).push(bit),
    {
        self.inner.push(bit)
    }

    /// `BitVec::len`: the number of bits, read out of the upper bits of a
    /// `usize` whose lowest three hold something else, so never more than
    /// `usize::MAX >> 3`.
    #[verifier::external_body]
    pub(crate) fn raw_len(&self) -> (n: usize)
        ensures
            n == bit_seq(*self).len(),
            n <= max_bits(),
    {
        self.inner.len()
    }

    /// `BitSlice::get` with an index: the bit there, `None` at or behind the end.
    #[verifier::external_body]
    pub(crate) fn raw_get(&self, index: usize) -> (bit: Option<bool>)
        ensures
            bit == if index < bit_seq(*self).len() {
                Some(bit_seq(*self)[index as int])
            } else {
                None
            },
    {
        self.inner.get(index).map(|b| *b)
    }

    /// The number of bits.
    pub fn len(&self) -> (n: usize)
        ensures
            n == self@.len(),
            n <= max_bits(),
    {
        self.raw_len()
    }

    /// The bits of `values`, in their order; `None` when they are more than a
    /// `Bits` can hold.
    pub fn from_bools(values: &Vec<bool>) -> (bits: Option<Bits>)
        ensures
            bits is Some <==> values.len() <= max_bits(),
            bits matches Some(b) ==> b@ == values@,
    {
        if values.len() > usize::MAX / 8 {
            return None;
        }
        let mut bits = Bits::raw_new();
        let mut i: usize = 0;
        while i < values.len()
            invariant
                i <= values.len() <= max_bits(),
                bits@ == values@.take(i as int),
            decreases values.len() - i,
        {
            bits.raw_push(values[i]);
            i += 1;
            assert(values@.take(i as int) =~= values@.take(i - 1).push(values@[i - 1]));
        }
        assert(values@.take(i as int) =~= values@);
        Some(bits)
    }
}

/// The bit at position `i`; a position behind the end reads as a zero bit.
pub open spec fn bit_at(bits: Seq<bool>, i: int) -> int {
    if 0 <= i < bits.len() && bits[i] {
        1
    } else {
        0
    }
}

/// The unsigned integer that the `width` bits from `start` on write, first
/// bit most significant.
pub open spec fn field_value(bits: Seq<bool>, start: int, width: nat) -> nat
    decreases width,
{
    if width == 0 {
        0
    } else {
        (2 * field_value(bits, start, (width - 1) as nat) + bit_at(bits, start + width - 1)) as nat
    }
}

/// The same bits read as a two's-complement integer of `width` bits: the
/// first bit counts as minus two to the power `width - 1`.
pub open spec fn signed_value(bits: Seq<bool>, start: int, width: nat) -> int {
    field_value(bits, start, width) - bit_at(bits, start) * pow2(width)
}

/// A field of `width` bits is worth less than two to the power `width`, and
/// at least two to the power `width - 1` exactly when its first bit is set.
pub proof fn lemma_field_value_bounds(bits: Seq<bool>, start: int, width: nat)
    ensures
        field_value(bits, start, width) < pow2(width),
        width >= 1 ==> (field_value(bits, start, width) >= pow2((width - 1) as nat) <==> bit_at(
            bits,
            start,
        ) == 1),
    decreases width,
{
    lemma2_to64();
    if width == 1 {
        assert(field_value(bits, start, 0) == 0);
    } else if width > 1 {
        lemma_field_value_bounds(bits, start, (width - 1) as nat);
        lemma_pow2_unfold(width);
        lemma_pow2_unfold((width - 1) as nat);
    }
}

/// A field whose first bit is set reads as a negative signed integer, one
/// whose first bit is clear as the unsigned integer itself.
pub proof fn lemma_signed_value_sign(bits: Seq<bool>, start: int, width: nat)
    requires
        width >= 1,
    ensures
        -pow2((width - 1) as nat) <= signed_value(bits, start, width) < pow2((width - 1) as nat),
        bit_at(bits, start) == 1 ==> signed_value(bits, start, width) < 0,
        bit_at(bits, start) == 0 ==> signed_value(bits, start, width) == field_value(
            bits,
            start,
            width,
        ),
{
    lemma_field_value_bounds(bits, start, width);
    lemma_pow2_unfold(width);
}

/// Reads `width` bits from `start` on as an unsigned integer, first bit most
/// significant. Bits behind the end of the sequence read as zero.
pub fn unsigned_field(bits: &Bits, start: usize, width: usize) -> (value: u64)
    requires
        1 <= width <= 64,
        start + width <= usize::MAX,
    ensures
        value == field_value(bits@, start as int, width as nat),
{
    let mut value: u64 = 0;
    let mut k: usize = 0;
    while k < width
        invariant
            k <= width <= 64,
            start + width <= usize::MAX,
            value == field_value(bits@, start as int, k as nat),
        decreases width - k,
    {
        proof {
            lemma_field_value_bounds(bits@, start as int, k as nat);
            lemma2_to64_rest();
            if k < 63 {
                lemma_pow2_strictly_increases(k as nat, 63);
            }
        }
        let bit: u64 = match bits.raw_get(start + k) {
            Some(true) => 1,
            _ => 0,
        };
        value = value * 2 + bit;
        k += 1;
    }
    value
}

/// Reads `width` bits from `start` on as a two's-complement integer, the sign
/// taken from the first bit of the field. Bits behind the end of the sequence
/// read as zero.
pub fn signed_field(bits: &Bits, start: usize, width: usize) -> (value: i64)
    requires
        1 <= width <= 64,
        start + width <= usize::MAX,
    ensures
        value == signed_value(bits@, start as int, width as nat),
        bit_at(bits@, start as int) == 1 ==> value < 0,
{
    let mut value: i64 = match bits.raw_get(start) {
        Some(true) => -1,
        _ => 0,
    };
    let mut k: usize = 1;
    proof {
        lemma2_to64();
        assert(field_value(bits@, start as int, 1) == bit_at(bits@, start as int)) by {
            assert(field_value(bits@, start as int, 0) == 0);
        }
    }
    while k < width
        invariant
            1 <= k <= width <= 64,
            start + width <= usize::MAX,
            value == signed_value(bits@, start as int, k as nat),
        decreases width - k,
    {
        proof {
            lemma_signed_value_sign(bits@, start as int, k as nat);
            lemma2_to64_rest();
            if k < 63 {
                lemma_pow2_strictly_increases((k - 1) as nat, 62);
            }
            lemma_pow2_unfold((k + 1) as nat);
            let (top, low, high) = (bit_at(bits@, start as int), pow2(k as nat), pow2((k + 1) as nat));
            assert(top * high == 2 * (top * low)) by (nonlinear_arith)
                requires
                    high == 2 * low,
            ;
        }
        let bit: i64 = match bits.raw_get(start + k) {
            Some(true) => 1,
            _ => 0,
        };
        value = value * 2 + bit;
        k += 1;
    }
    proof {
        lemma_signed_value_sign(bits@, start as int, width as nat);
    }
    value
}

} // verus!
