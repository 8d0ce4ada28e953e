//! The operator vocabulary: precedence strengths, associativity, arity,
//! syntactic position, and the descriptor that ties them together.

use vstd::prelude::*;

verus! {

/// How an infix operator's own strength feeds back into the floor used for
/// its right operand. Meaningful only for infix position.
#[derive(Clone, Copy, Debug, PartialEq, Eq)]
pub enum Associativity {
    Null,
    Left,
    Right,
}

/// The number of parsed operands, not counting the operator token itself.
#[derive(Clone, Copy, Debug, PartialEq, Eq)]
pub enum Arity {
    Nullary,
    Unary,
    Binary,
    Ternary,
}

/// The syntactic position of an operator token. Nilfix tokens are complete
/// expressions by themselves; interfix tokens only ever appear as the
/// "follow" token inside another construct; circumfix covers bracketing
/// forms that open in prefix position and close via an interfix follow token.
#[derive(Clone, Copy, Debug, PartialEq, Eq)]
pub enum Affix {
    Circumfix,
    Interfix,
    Nilfix,
    Prefix,
    Postfix,
    Infix(Associativity),
}

/// The strength `n`, lowered by one step, saturating at zero.
pub open spec fn sat_dec(n: u32) -> u32 {
    if n > 0 {
        (n - 1) as u32
    } else {
        0
    }
}

/// The strength `n`, raised by one step, saturating at the greatest strength.
pub open spec fn sat_inc(n: u32) -> u32 {
    if n < u32::MAX {
        (n + 1) as u32
    } else {
        u32::MAX
    }
}

/// A totally ordered strength. `min()` is the least possible value and
/// `max()` the greatest; `lower()` and `raise()` move by exactly one step,
/// saturating at the two sentinels.
#[derive(Clone, Copy, Debug, PartialEq, Eq)]
pub struct Precedence(pub u32);

impl Precedence {
    /// One step weaker, saturating at the minimum.
    pub fn lower(self) -> (r: Precedence)
        ensures
            r.0 == sat_dec(self.0),
    {
        if self.0 > 0 {
            Precedence(self.0 - 1)
        } else {
            Precedence(0)
        }
    }

    /// One step stronger, saturating at the maximum.
    pub fn raise(self) -> (r: Precedence)
        ensures
            r.0 == sat_inc(self.0),
    {
        if self.0 < u32::MAX {
            Precedence(self.0 + 1)
        } else {
            Precedence(u32::MAX)
        }
    }

    /// The least strength: the initial floor when parsing a whole input.
    pub fn min() -> (r: Precedence)
        ensures
            r.0 == u32::MIN,
    {
        Precedence(u32::MIN)
    }

    /// The greatest strength: the "no ceiling" default for positions that
    /// cannot be bounded by a following operator.
    pub fn max() -> (r: Precedence)
        ensures
            r.0 == u32::MAX,
    {
        Precedence(u32::MAX)
    }
}

/// An operator descriptor: name, syntactic position, operand count,
/// strength, and the ordered list of expected follow-token names used by
/// multi-part constructs. An out-of-range follow slot means "no separator
/// expected at that boundary".
#[derive(Clone, Copy, Debug)]
pub struct Op {
    pub name: &'static str,
    pub affix: Affix,
    pub arity: Arity,
    pub precedence: Precedence,
    pub follow: &'static [&'static str],
}

impl Op {
    /// A descriptor with no follow tokens.
    pub fn new(name: &'static str, affix: Affix, arity: Arity, precedence: Precedence) -> (r: Op)
        ensures
            r.name == name,
            r.affix == affix,
            r.arity == arity,
            r.precedence == precedence,
            r.follow@.len() == 0,
    {
        Op { name, affix, arity, precedence, follow: &[] }
    }

    /// The same descriptor with the given follow-token names.
    pub fn followed_by(self, names: &'static [&'static str]) -> (r: Op)
        ensures
            r.name == self.name,
            r.affix == self.affix,
            r.arity == self.arity,
            r.precedence == self.precedence,
            r.follow == names,
    {
        Op { follow: names, ..self }
    }
}

} // verus!
