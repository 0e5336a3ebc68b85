use vstd::prelude::*;

verus! {

/// A numeric observation value.
///
/// Finite values are kept exactly as a signed ratio, so that comparisons are
/// exact; the sign is kept apart from the magnitude so that a negative zero
/// can be told from a positive one.
#[derive(Clone, Copy, Debug, PartialEq, Eq, Structural)]
pub enum NumericalValue {
    NotANumber,
    Infinite { negative: bool },
    Finite { negative: bool, numerator: u64, denominator: u64 },
}

impl NumericalValue {
    /// A finite value needs a non-zero denominator.
    pub open spec fn wf(self) -> bool {
        match self {
            NumericalValue::Finite { denominator, .. } => denominator > 0,
            _ => true,
        }
    }

    pub open spec fn spec_is_nan(self) -> bool {
        self is NotANumber
    }

    pub open spec fn spec_is_infinite(self) -> bool {
        self is Infinite
    }

    pub open spec fn spec_is_sign_negative(self) -> bool {
        match self {
            NumericalValue::NotANumber => false,
            NumericalValue::Infinite { negative } => negative,
            NumericalValue::Finite { negative, .. } => negative,
        }
    }

    /// The signed numerator of a finite value.
    pub open spec fn signed_numerator(self) -> int {
        match self {
            NumericalValue::Finite { negative, numerator, .. } => if negative {
                -(numerator as int)
            } else {
                numerator as int
            },
            _ => 0,
        }
    }

    pub open spec fn spec_denominator(self) -> int {
        match self {
            NumericalValue::Finite { denominator, .. } => denominator as int,
            _ => 1,
        }
    }

    /// `self >= other` as IEEE comparison orders numbers: false when either
    /// side is not a number, and both zeros compare equal.
    pub open spec fn spec_ge(self, other: NumericalValue) -> bool {
        match (self, other) {
            (NumericalValue::NotANumber, _) => false,
            (_, NumericalValue::NotANumber) => false,
            (NumericalValue::Infinite { negative: false }, _) => true,
            (_, NumericalValue::Infinite { negative: true }) => true,
            (NumericalValue::Infinite { negative: true }, _) => false,
            (_, NumericalValue::Infinite { negative: false }) => false,
            _ => self.signed_numerator() * other.spec_denominator() >= other.signed_numerator()
                * self.spec_denominator(),
        }
    }

    /// The quotient `numerator / denominator` of two counts, as float division
    /// gives it: a zero denominator gives an infinity, or no number for `0 / 0`.
    pub open spec fn spec_ratio(numerator: u64, denominator: u64) -> NumericalValue {
        if denominator > 0 {
            NumericalValue::Finite { negative: false, numerator, denominator }
        } else if numerator > 0 {
            NumericalValue::Infinite { negative: false }
        } else {
            NumericalValue::NotANumber
        }
    }

    pub fn ratio(numerator: u64, denominator: u64) -> (r: NumericalValue)
        ensures
            r == Self::spec_ratio(numerator, denominator),
            r.wf(),
    {
        if denominator > 0 {
            NumericalValue::Finite { negative: false, numerator, denominator }
        } else if numerator > 0 {
            NumericalValue::Infinite { negative: false }
        } else {
            NumericalValue::NotANumber
        }
    }

    /// A whole, non-negative number.
    pub fn from_integer(n: u64) -> (r: NumericalValue)
        ensures
            r == (NumericalValue::Finite { negative: false, numerator: n, denominator: 1 }),
            r.wf(),
    {
        NumericalValue::Finite { negative: false, numerator: n, denominator: 1 }
    }

    pub fn is_nan(&self) -> (r: bool)
        ensures
            r == self.spec_is_nan(),
    {
        matches!(self, NumericalValue::NotANumber)
    }

    pub fn is_infinite(&self) -> (r: bool)
        ensures
            r == self.spec_is_infinite(),
    {
        matches!(self, NumericalValue::Infinite { .. })
    }

    pub fn is_sign_negative(&self) -> (r: bool)
        ensures
            r == self.spec_is_sign_negative(),
    {
        match self {
            NumericalValue::NotANumber => false,
            NumericalValue::Infinite { negative } => *negative,
            NumericalValue::Finite { negative, .. } => *negative,
        }
    }

    /// Exact comparison `self >= other`.
    pub fn ge(&self, other: &NumericalValue) -> (r: bool)
        requires
            self.wf(),
            other.wf(),
        ensures
            r == self.spec_ge(*other),
    {
        match (*self, *other) {
            (NumericalValue::NotANumber, _) => false,
            (_, NumericalValue::NotANumber) => false,
            (NumericalValue::Infinite { negative: false }, _) => true,
            (_, NumericalValue::Infinite { negative: true }) => true,
            (NumericalValue::Infinite { negative: true }, _) => false,
            (_, NumericalValue::Infinite { negative: false }) => false,
            (
                NumericalValue::Finite { negative: an, numerator: a, denominator: ad },
                NumericalValue::Finite { negative: bn, numerator: b, denominator: bd },
            ) => {
                proof {
                    lemma_product_fits(a, bd);
                    lemma_product_fits(b, ad);
                    lemma_sign_cases(an, a, ad, bn, b, bd);
                }
                let lhs: u128 = (a as u128) * (bd as u128);
                let rhs: u128 = (b as u128) * (ad as u128);
                if !an && !bn {
                    lhs >= rhs
                } else if !an && bn {
                    true
                } else if an && !bn {
                    lhs == 0 && rhs == 0
                } else {
                    lhs <= rhs
                }
            },
        }
    }
}

proof fn lemma_product_fits(x: u64, y: u64)
    ensures
        0 <= (x as int) * (y as int) <= u128::MAX,
{
    assert(0 <= (x as int) * (y as int) <= (u64::MAX as int) * (u64::MAX as int)) by (nonlinear_arith)
        requires
            0 <= x <= u64::MAX,
            0 <= y <= u64::MAX,
    ;
}

/// Compares two signed ratios by their magnitudes' cross products.
proof fn lemma_sign_cases(an: bool, a: u64, ad: u64, bn: bool, b: u64, bd: u64)
    requires
        ad > 0,
        bd > 0,
    ensures
        ({
            let sa: int = if an { -(a as int) } else { a as int };
            let sb: int = if bn { -(b as int) } else { b as int };
            let l: int = (a as int) * (bd as int);
            let r: int = (b as int) * (ad as int);
            &&& l >= 0 && r >= 0
            &&& sa * (bd as int) == if an { -l } else { l }
            &&& sb * (ad as int) == if bn { -r } else { r }
        }),
{
    assert((a as int) * (bd as int) >= 0) by (nonlinear_arith)
        requires
            a >= 0,
            bd > 0,
    ;
    assert((b as int) * (ad as int) >= 0) by (nonlinear_arith)
        requires
            b >= 0,
            ad > 0,
    ;
    assert((-(a as int)) * (bd as int) == -((a as int) * (bd as int))) by (nonlinear_arith);
    assert((-(b as int)) * (ad as int) == -((b as int) * (ad as int))) by (nonlinear_arith);
}

} // verus!
