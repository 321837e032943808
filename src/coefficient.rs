//! Coefficients of the MNA system, written in terms of element parameters.
//!
//! Stamping never combines parameter values: it records, for each matrix or
//! right-hand-side term, which exact expression of an element's parameter
//! belongs there. A solver evaluates each term in its number type.

use vstd::prelude::*;

verus! {

/// One term of a matrix or right-hand-side entry.
#[derive(Clone, Copy, Debug, PartialEq, Eq)]
pub enum Coefficient<T> {
    /// The additive identity, written to keep an entry structurally present.
    Zero,
    /// The multiplicative identity.
    One,
    /// The negated multiplicative identity.
    MinusOne,
    /// A parameter `p` as it stands.
    Value(T),
    /// `-p`.
    Negated(T),
    /// `1 / p`.
    Reciprocal(T),
    /// `-1 / p`.
    NegatedReciprocal(T),
}

impl<T: Copy> Coefficient<T> {
    /// The coefficient with opposite sign.
    pub open spec fn negated(self) -> Self {
        match self {
            Coefficient::Zero => Coefficient::Zero,
            Coefficient::One => Coefficient::MinusOne,
            Coefficient::MinusOne => Coefficient::One,
            Coefficient::Value(p) => Coefficient::Negated(p),
            Coefficient::Negated(p) => Coefficient::Value(p),
            Coefficient::Reciprocal(p) => Coefficient::NegatedReciprocal(p),
            Coefficient::NegatedReciprocal(p) => Coefficient::Reciprocal(p),
        }
    }

    pub fn negate(self) -> (r: Self)
        ensures
            r == self.negated(),
    {
        match self {
            Coefficient::Zero => Coefficient::Zero,
            Coefficient::One => Coefficient::MinusOne,
            Coefficient::MinusOne => Coefficient::One,
            Coefficient::Value(p) => Coefficient::Negated(p),
            Coefficient::Negated(p) => Coefficient::Value(p),
            Coefficient::Reciprocal(p) => Coefficient::NegatedReciprocal(p),
            Coefficient::NegatedReciprocal(p) => Coefficient::Reciprocal(p),
        }
    }
}

} // verus!
