//! Real numbers in IEEE-754 binary64 format, held by their bit patterns.

use vstd::prelude::*;
use vstd::arithmetic::power2::{pow2, lemma_pow2_pos, lemma_pow2_unfold, lemma_pow2_adds, lemma_pow2_strictly_increases};

verus! {

/// The bit that carries the sign.
pub const SIGN_BIT: u64 = 0x8000_0000_0000_0000;

/// The bit pattern of positive infinity; every larger magnitude is a NaN.
pub const INFINITY_BITS: u64 = 0x7FF0_0000_0000_0000;

/// The number of distinct fractions per exponent, two to the power of 52.
pub const FRACTION_SPAN: u64 = 0x0010_0000_0000_0000;

/// The bit pattern of the number one.
pub const ONE_BITS: u64 = 0x3FF0_0000_0000_0000;

/// A binary64 number, stored as the 64 bits of its encoding: one sign bit,
/// eleven exponent bits and 52 fraction bits, from the top down.
#[derive(Clone, Copy, Debug, PartialEq, Eq, Structural)]
pub struct Scalar {
    pub bits: u64,
}

impl Scalar {
    /// Whether the sign bit is set.
    pub open spec fn sign(self) -> bool {
        self.bits >= SIGN_BIT
    }

    /// The encoding without its sign bit.
    pub open spec fn magnitude_bits(self) -> nat {
        (self.bits % SIGN_BIT) as nat
    }

    /// The biased exponent, from 0 to 2047.
    pub open spec fn exponent(self) -> nat {
        self.magnitude_bits() / (FRACTION_SPAN as nat)
    }

    /// The 52 fraction bits.
    pub open spec fn fraction(self) -> nat {
        self.magnitude_bits() % (FRACTION_SPAN as nat)
    }

    /// Whether the encoding stands for no number at all.
    pub open spec fn nan(self) -> bool {
        self.magnitude_bits() > INFINITY_BITS
    }

    /// The absolute value that the encoding denotes, counted in units of two
    /// to the power of -1074, the smallest positive binary64 number.  In that
    /// unit every binary64 number is an integer.  The infinities follow the
    /// rule of the finite numbers, which puts them beyond all of these.
    pub open spec fn magnitude(self) -> nat {
        if self.exponent() == 0 {
            self.fraction()
        } else {
            (FRACTION_SPAN + self.fraction()) as nat * pow2((self.exponent() - 1) as nat)
        }
    }

    /// The number that the encoding denotes, in the unit of `magnitude`.
    /// Both zeros denote 0.  Meaningless for a NaN.
    pub open spec fn value(self) -> int {
        if self.sign() {
            -(self.magnitude() as int)
        } else {
            self.magnitude() as int
        }
    }

    /// Whether the scalar is one of the two zeros.
    pub open spec fn zero_valued(self) -> bool {
        self.magnitude_bits() == 0
    }

    /// The encoding with the sign bit flipped, which is what negation gives
    /// for every binary64 number, the zeros, the infinities and the NaNs
    /// included.
    pub open spec fn negated(self) -> Scalar {
        if self.bits >= SIGN_BIT {
            Scalar { bits: (self.bits - SIGN_BIT) as u64 }
        } else {
            Scalar { bits: (self.bits + SIGN_BIT) as u64 }
        }
    }

    /// The order of binary64 numbers: a NaN is below nothing and nothing is
    /// below a NaN.
    pub open spec fn below(self, other: Scalar) -> bool {
        !self.nan() && !other.nan() && self.value() < other.value()
    }

    /// The order of binary64 numbers, equality included.
    pub open spec fn at_most(self, other: Scalar) -> bool {
        !self.nan() && !other.nan() && self.value() <= other.value()
    }

    /// Whether the scalar is a number below zero.
    pub open spec fn below_zero(self) -> bool {
        !self.nan() && self.value() < 0
    }

    /// Whether the scalar is zero or a number below zero.
    pub open spec fn at_most_zero(self) -> bool {
        !self.nan() && self.value() <= 0
    }

    /// Whether the scalar is zero or a number above zero.
    pub open spec fn at_least_zero(self) -> bool {
        !self.nan() && self.value() >= 0
    }

    /// Among encodings that are not NaNs, a smaller encoded magnitude denotes
    /// a smaller magnitude.
    pub proof fn lemma_magnitude_increases(self, other: Scalar)
        requires
            !other.nan(),
            self.magnitude_bits() < other.magnitude_bits(),
        ensures
            self.magnitude() < other.magnitude(),
    {
        let span = FRACTION_SPAN as nat;
        let (ea, fa) = (self.exponent(), self.fraction());
        let (eb, fb) = (other.exponent(), other.fraction());
        assert(self.magnitude_bits() == ea * span + fa) by (nonlinear_arith)
            requires
                ea == self.magnitude_bits() / span,
                fa == self.magnitude_bits() % span,
                span > 0,
        ;
        assert(other.magnitude_bits() == eb * span + fb) by (nonlinear_arith)
            requires
                eb == other.magnitude_bits() / span,
                fb == other.magnitude_bits() % span,
                span > 0,
        ;
        assert(ea <= eb) by (nonlinear_arith)
            requires
                ea * span + fa < eb * span + fb,
                fa < span,
                fb < span,
        ;
        if ea == eb {
            if ea > 0 {
                let p = pow2((ea - 1) as nat);
                lemma_pow2_pos((ea - 1) as nat);
                assert((span + fa) * p < (span + fb) * p) by (nonlinear_arith)
                    requires
                        fa < fb,
                        p > 0,
                ;
            }
        } else {
            let q = pow2((eb - 1) as nat);
            lemma_pow2_pos((eb - 1) as nat);
            assert(span * q <= (span + fb) * q) by (nonlinear_arith)
                requires
                    q > 0,
            ;
            if ea == 0 {
                assert(span <= span * q) by (nonlinear_arith)
                    requires
                        q > 0,
                ;
            } else {
                let p = pow2((ea - 1) as nat);
                lemma_pow2_pos((ea - 1) as nat);
                lemma_pow2_unfold(ea);
                if ea < eb - 1 {
                    lemma_pow2_strictly_increases(ea, (eb - 1) as nat);
                }
                assert((span + fa) * p < span * (2 * p)) by (nonlinear_arith)
                    requires
                        fa < span,
                        p > 0,
                ;
                assert(span * (2 * p) <= span * q) by (nonlinear_arith)
                    requires
                        2 * p <= q,
                ;
            }
        }
    }

    /// Only the two zeros denote 0.
    pub proof fn lemma_zero_magnitude(self)
        requires
            !self.nan(),
        ensures
            self.magnitude() == 0 <==> self.magnitude_bits() == 0,
    {
        if self.magnitude_bits() != 0 {
            let zero = Scalar { bits: 0 };
            zero.lemma_magnitude_increases(self);
        }
    }

    /// The scalar with the given encoding.
    pub fn from_bits(bits: u64) -> (r: Scalar)
        ensures
            r.bits == bits,
    {
        Scalar { bits }
    }

    /// The encoding of the scalar.
    pub fn to_bits(self) -> (r: u64)
        ensures
            r == self.bits,
    {
        self.bits
    }

    /// Positive zero.
    pub fn zero() -> (r: Scalar)
        ensures
            r.bits == 0,
            !r.nan(),
            r.value() == 0,
    {
        Scalar { bits: 0 }
    }

    /// The number one.
    pub fn one() -> (r: Scalar)
        ensures
            r.bits == ONE_BITS,
            !r.nan(),
            r.value() == pow2(1074),
    {
        let r = Scalar { bits: ONE_BITS };
        proof {
            assert(r.exponent() == 1023 && r.fraction() == 0);
            lemma_pow2_adds(52, 1022);
            vstd::arithmetic::power2::lemma2_to64_rest();
        }
        r
    }

    fn magnitude_of(self) -> (r: u64)
        ensures
            r == self.magnitude_bits(),
    {
        if self.bits >= SIGN_BIT {
            self.bits - SIGN_BIT
        } else {
            self.bits
        }
    }

    /// Whether the scalar is a NaN.
    #[verifier::when_used_as_spec(nan)]
    pub fn is_nan(self) -> (r: bool)
        ensures
            r == self.nan(),
    {
        self.magnitude_of() > INFINITY_BITS
    }

    /// Whether the scalar equals zero as a binary64 number.
    #[verifier::when_used_as_spec(zero_valued)]
    pub fn is_zero(self) -> (r: bool)
        ensures
            r == self.zero_valued(),
            r == (!self.nan() && self.value() == 0),
    {
        proof {
            if !self.nan() {
                self.lemma_zero_magnitude();
            }
        }
        self.magnitude_of() == 0
    }

    /// The negation of the scalar.
    #[verifier::when_used_as_spec(negated)]
    pub fn neg(self) -> (r: Scalar)
        ensures
            r == self.negated(),
            r.nan() == self.nan(),
            r.value() == -self.value(),
    {
        if self.bits >= SIGN_BIT {
            Scalar { bits: self.bits - SIGN_BIT }
        } else {
            Scalar { bits: self.bits + SIGN_BIT }
        }
    }

    /// `self < other` as binary64 numbers.
    #[verifier::when_used_as_spec(below)]
    pub fn lt(self, other: Scalar) -> (r: bool)
        ensures
            r == self.below(other),
    {
        let a = self.magnitude_of();
        let b = other.magnitude_of();
        if a > INFINITY_BITS || b > INFINITY_BITS {
            return false;
        }
        proof {
            self.lemma_zero_magnitude();
            other.lemma_zero_magnitude();
            if a < b {
                self.lemma_magnitude_increases(other);
            }
            if b < a {
                other.lemma_magnitude_increases(self);
            }
        }
        if self.bits >= SIGN_BIT {
            if other.bits >= SIGN_BIT {
                b < a
            } else {
                a != 0 || b != 0
            }
        } else {
            if other.bits >= SIGN_BIT {
                false
            } else {
                a < b
            }
        }
    }

    /// `self <= other` as binary64 numbers.
    #[verifier::when_used_as_spec(at_most)]
    pub fn le(self, other: Scalar) -> (r: bool)
        ensures
            r == self.at_most(other),
    {
        let a = self.magnitude_of();
        let b = other.magnitude_of();
        if a > INFINITY_BITS || b > INFINITY_BITS {
            return false;
        }
        proof {
            self.lemma_zero_magnitude();
            other.lemma_zero_magnitude();
            if a < b {
                self.lemma_magnitude_increases(other);
            }
            if b < a {
                other.lemma_magnitude_increases(self);
            }
        }
        if self.bits >= SIGN_BIT {
            if other.bits >= SIGN_BIT {
                b <= a
            } else {
                true
            }
        } else {
            if other.bits >= SIGN_BIT {
                a == 0 && b == 0
            } else {
                a <= b
            }
        }
    }
}

} // verus!
