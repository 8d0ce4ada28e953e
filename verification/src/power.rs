//! The binding-power policy: a pure mapping from an operator descriptor to
//! the three derived strengths that drive the descent loop.
//!
//! - the left-binding-power (`lbp_of`) decides whether a token may continue
//!   a preceding expression at all;
//! - the next-binding-power (`nbp_of`) becomes the ceiling for what may
//!   attach after this token's reduction completes;
//! - the right-binding-power (`rbp_of`) is the floor passed down when the
//!   operator's own final operand is parsed.

use vstd::prelude::*;

use crate::op::Affix;
use crate::op::Associativity;
use crate::op::Op;
use crate::op::sat_dec;
use crate::op::sat_inc;

verus! {

/// Whether `op` may continue a preceding expression. Nilfix, prefix,
/// circumfix and interfix tokens never do — they always start something new
/// or stand inert — so their left-binding-power is the minimum.
pub open spec fn lbp_of(op: Op) -> u32 {
    match op.affix {
        Affix::Postfix => op.precedence.0,
        Affix::Infix(_) => op.precedence.0,
        _ => u32::MIN,
    }
}

/// The ceiling on what may attach after `op`'s reduction completes. Nilfix,
/// prefix, postfix, circumfix and interfix impose no ceiling; an infix
/// operator allows one more step above its own strength when associative,
/// and exactly its own strength when non-associative — which, with the
/// loop's strict bounds, forbids chaining two non-associative operators of
/// equal strength.
pub open spec fn nbp_of(op: Op) -> u32 {
    match op.affix {
        Affix::Infix(Associativity::Left) => sat_inc(op.precedence.0),
        Affix::Infix(Associativity::Right) => sat_inc(op.precedence.0),
        Affix::Infix(Associativity::Null) => op.precedence.0,
        _ => u32::MAX,
    }
}

/// The floor passed down when parsing `op`'s own final operand. One step
/// below the operator's strength for prefix, circumfix, postfix-ternary and
/// right-associative infix forms (permitting right recursion at the same
/// nominal strength); exactly the operator's strength for left- and
/// non-associative infix forms (forbidding it). Nilfix and interfix tokens
/// drive no operand of their own.
pub open spec fn rbp_of(op: Op) -> u32 {
    match op.affix {
        Affix::Prefix => sat_dec(op.precedence.0),
        Affix::Circumfix => sat_dec(op.precedence.0),
        Affix::Postfix => sat_dec(op.precedence.0),
        Affix::Infix(Associativity::Right) => sat_dec(op.precedence.0),
        Affix::Infix(Associativity::Left) => op.precedence.0,
        Affix::Infix(Associativity::Null) => op.precedence.0,
        Affix::Nilfix => u32::MIN,
        Affix::Interfix => u32::MIN,
    }
}

/// A non-associative infix operator cannot chain: its next-binding-power
/// equals its left-binding-power, and the descent loop absorbs a token only
/// while that token's left-binding-power lies strictly below the ceiling.
pub proof fn lemma_null_assoc_blocks_chain(op: Op)
    requires
        op.affix == Affix::Infix(Associativity::Null),
    ensures
        nbp_of(op) == lbp_of(op),
{
}

/// A left- or non-associative infix operator passes its own strength down
/// as the floor for its right operand, so a second operator of equal
/// strength on the right is rejected and the chain reduces from the left.
pub proof fn lemma_left_assoc_floor(op: Op, other: Op)
    requires
        op.affix == Affix::Infix(Associativity::Left) || op.affix == Affix::Infix(
            Associativity::Null,
        ),
        other.affix == Affix::Infix(Associativity::Left) || other.affix == Affix::Infix(
            Associativity::Null,
        ),
        other.precedence.0 == op.precedence.0,
    ensures
        !(rbp_of(op) < lbp_of(other)),
{
}

/// A right-associative infix operator of positive strength passes one step
/// less than its own strength down as the floor for its right operand, so a
/// second operator of equal strength on the right is still accepted and the
/// chain reduces from the right.
pub proof fn lemma_right_assoc_floor(op: Op, other: Op)
    requires
        op.affix == Affix::Infix(Associativity::Right),
        other.affix == Affix::Infix(Associativity::Right),
        other.precedence.0 == op.precedence.0,
        0 < op.precedence.0 < u32::MAX,
    ensures
        rbp_of(op) < lbp_of(other),
        lbp_of(other) < nbp_of(op),
{
}

} // verus!
