use vstd::prelude::*;

verus! {

/// A single-precision IEEE-754 value carried by its bit pattern.
///
/// Focus scores and the thresholds they are compared with are computed by
/// floating-point arithmetic outside the library; the library only compares
/// them, and it does so exactly as IEEE-754 `<` and `>=` do.
#[derive(Clone, Copy, Debug, PartialEq, Eq, Structural)]
pub struct Score {
    pub bits: u32,
}

impl Score {
    /// The value is a NaN: all exponent bits set and a non-zero mantissa.
    pub open spec fn is_nan(self) -> bool {
        &&& (self.bits >> 23u32) & 0xffu32 == 0xffu32
        &&& self.bits & 0x7f_ffffu32 != 0
    }

    /// The position of a non-NaN value on the number line: the magnitude
    /// bits, negated when the sign bit is set (so that both zeros are 0).
    pub open spec fn key(self) -> int {
        let magnitude = self.bits & 0x7fff_ffffu32;
        if self.bits >> 31u32 == 1u32 {
            -(magnitude as int)
        } else {
            magnitude as int
        }
    }

    /// IEEE-754 `self < other`: false whenever either side is NaN.
    pub open spec fn below(self, other: Score) -> bool {
        !self.is_nan() && !other.is_nan() && self.key() < other.key()
    }

    /// IEEE-754 `self >= other`: false whenever either side is NaN.
    pub open spec fn at_least(self, other: Score) -> bool {
        !self.is_nan() && !other.is_nan() && self.key() >= other.key()
    }

    pub fn from_bits(bits: u32) -> (s: Score)
        ensures
            s.bits == bits,
    {
        Score { bits }
    }

    pub fn to_bits(self) -> (bits: u32)
        ensures
            bits == self.bits,
    {
        self.bits
    }

    pub fn nan_check(self) -> (r: bool)
        ensures
            r == self.is_nan(),
    {
        (self.bits >> 23u32) & 0xffu32 == 0xffu32 && self.bits & 0x7f_ffffu32 != 0
    }

    /// The signed magnitude of the value, as used by `key`.
    fn signed_magnitude(self) -> (k: i64)
        ensures
            k as int == self.key(),
    {
        let magnitude = self.bits & 0x7fff_ffffu32;
        let b = self.bits;
        assert(b & 0x7fff_ffffu32 <= 0x7fff_ffffu32) by (bit_vector);
        if self.bits >> 31u32 == 1u32 {
            -(magnitude as i64)
        } else {
            magnitude as i64
        }
    }

    /// IEEE-754 `<` on the two values.
    pub fn lt(self, other: Score) -> (r: bool)
        ensures
            r == self.below(other),
    {
        !self.nan_check() && !other.nan_check() && self.signed_magnitude() < other.signed_magnitude()
    }

    /// IEEE-754 `>=` on the two values.
    pub fn ge(self, other: Score) -> (r: bool)
        ensures
            r == self.at_least(other),
    {
        !self.nan_check() && !other.nan_check() && self.signed_magnitude() >= other.signed_magnitude()
    }
}

/// Values that are not NaN are totally ordered: each is either below the
/// other or at least the other, never both.
pub proof fn lemma_ordered_unless_nan(a: Score, b: Score)
    requires
        !a.is_nan(),
        !b.is_nan(),
    ensures
        a.below(b) <==> !a.at_least(b),
{
}

/// A NaN compares false with everything, itself included.
pub proof fn lemma_nan_is_unordered(a: Score, b: Score)
    requires
        a.is_nan(),
    ensures
        !a.below(b),
        !a.at_least(b),
        !b.below(a),
        !b.at_least(a),
{
}

} // verus!
