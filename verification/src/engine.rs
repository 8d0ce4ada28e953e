//! The recursive descent engine: the loop that, given a lower-bound
//! strength, consumes one prefix-position token, recursively parses its
//! operand(s), then repeatedly looks ahead and, while the next token's
//! left-binding-power lies strictly between the current floor and the
//! current ceiling, consumes it and applies its continuation reduction.
//!
//! The `simple_*` predicates below each describe a minimal complete
//! application of one operator shape — a lone atom, a prefix, postfix or
//! infix application, a bracketing form, a keyword construct with and
//! without its keywords — and the contracts of [`parse`] and [`parse_until`]
//! pin the parse of every such stream to exactly the reduction the
//! collaborators prescribe, with the whole stream consumed.

use vstd::prelude::*;

use crate::op::Affix;
use crate::op::Arity;
use crate::op::Associativity;
use crate::op::Op;
use crate::op::Precedence;
use crate::power::lbp_of;
use crate::power::nbp_of;
use crate::power::rbp_of;
use crate::stream::Tokens;
use crate::stream::is_suffix_of;
use crate::stream::lemma_suffix_refl;
use crate::stream::lemma_suffix_trans;

verus! {

/// How a parse can fail.
///
/// `External` carries a failure reported by one of the caller's
/// collaborators — an unknown token, a malformed literal, a semantically
/// invalid combination — threaded back up unchanged through every recursive
/// call. `Exhausted` and `Misplaced` are grammar failures of the parse
/// itself: asking for an expression when no token is available at all, and
/// a token whose position and operand count cannot legally occur where it
/// was encountered. `Misplaced` names the offending token.
#[derive(Debug, PartialEq, Eq)]
pub enum PrattError<I, E> {
    Exhausted,
    Misplaced(I),
    External(E),
}

/// A collaborator's result, threaded into the engine's own result type.
pub open spec fn from_collab<O, I, E>(r: Result<O, E>) -> Result<O, PrattError<I, E>> {
    match r {
        Ok(o) => Ok(o),
        Err(e) => Err(PrattError::External(e)),
    }
}

/// The caller's collaborators: the descriptor lookup and the reducers that
/// turn a matched operator plus its already-reduced operands into one
/// output value.
///
/// Each executable method is paired with a specification function giving
/// its result as a pure function of the collaborator's state and arguments:
/// the lookup must return a consistent descriptor for the same token across
/// the calls of one parse, and each reducer's result is determined by the
/// state it was called in. Reducers are free to update that state.
pub trait PrattParser: Sized {
    type Error;

    type Input;

    type Output;

    /// What the descriptor lookup returns for a token.
    spec fn query_spec(&self, input: Self::Input) -> Result<Op, Self::Error>;

    /// What the nullary reducer returns for a token, in a given state.
    spec fn nullary_spec(&self, input: Self::Input) -> Result<Self::Output, Self::Error>;

    /// The state the nullary reducer leaves the collaborator in.
    spec fn nullary_state(&self, input: Self::Input) -> Self;

    /// What the unary reducer returns, in a given state.
    spec fn unary_spec(&self, input: Self::Input, operand: Self::Output) -> Result<
        Self::Output,
        Self::Error,
    >;

    /// The state the unary reducer leaves the collaborator in.
    spec fn unary_state(&self, input: Self::Input, operand: Self::Output) -> Self;

    /// What the binary reducer returns, in a given state.
    spec fn binary_spec(&self, input: Self::Input, lhs: Self::Output, rhs: Self::Output) -> Result<
        Self::Output,
        Self::Error,
    >;

    /// The state the binary reducer leaves the collaborator in.
    spec fn binary_state(&self, input: Self::Input, lhs: Self::Output, rhs: Self::Output) -> Self;

    /// What the ternary reducer returns, in a given state.
    spec fn ternary_spec(
        &self,
        input: Self::Input,
        lhs: Self::Output,
        mid: Self::Output,
        rhs: Self::Output,
    ) -> Result<Self::Output, Self::Error>;

    /// The state the ternary reducer leaves the collaborator in.
    spec fn ternary_state(
        &self,
        input: Self::Input,
        lhs: Self::Output,
        mid: Self::Output,
        rhs: Self::Output,
    ) -> Self;

    /// The descriptor for one token, or a typed lookup failure. A lookup
    /// does not change the collaborator's state, so the same token resolves
    /// to the same descriptor for the whole of one parse.
    fn query(&mut self, input: &Self::Input) -> (r: Result<Op, Self::Error>)
        ensures
            *final(self) == *old(self),
            r == old(self).query_spec(*input),
    ;

    /// Reduce a nilfix token to an output value.
    fn nullary(&mut self, input: Self::Input) -> (r: Result<Self::Output, Self::Error>)
        ensures
            r == old(self).nullary_spec(input),
            *final(self) == old(self).nullary_state(input),
    ;

    /// Reduce a matched operator and one operand to an output value.
    fn unary(&mut self, input: Self::Input, operand: Self::Output) -> (r: Result<
        Self::Output,
        Self::Error,
    >)
        ensures
            r == old(self).unary_spec(input, operand),
            *final(self) == old(self).unary_state(input, operand),
    ;

    /// Reduce a matched operator and two operands to an output value.
    fn binary(&mut self, input: Self::Input, lhs: Self::Output, rhs: Self::Output) -> (r: Result<
        Self::Output,
        Self::Error,
    >)
        ensures
            r == old(self).binary_spec(input, lhs, rhs),
            *final(self) == old(self).binary_state(input, lhs, rhs),
    ;

    /// Reduce a matched operator and three operands to an output value.
    fn ternary(
        &mut self,
        input: Self::Input,
        lhs: Self::Output,
        mid: Self::Output,
        rhs: Self::Output,
    ) -> (r: Result<Self::Output, Self::Error>)
        ensures
            r == old(self).ternary_spec(input, lhs, mid, rhs),
            *final(self) == old(self).ternary_state(input, lhs, mid, rhs),
    ;
}

/// Relies on str's PartialEq: two string slices are equal exactly when
/// their characters are.
#[verifier::external_body]
fn str_eq(a: &str, b: &str) -> (r: bool)
    ensures
        r == (a@ == b@),
{
    a == b
}

/// The follow-token name expected at slot `index` of a follow list, as a
/// character sequence; an out-of-range slot expects nothing.
pub open spec fn expected_at(follow: Seq<&'static str>, index: int) -> Seq<char> {
    if 0 <= index < follow.len() {
        follow[index]@
    } else {
        Seq::<char>::empty()
    }
}

/// Whether `op` can stand as the expected follow token named `expected`:
/// it must sit in interfix or circumfix position and carry that very name.
pub open spec fn interfix_matches(op: Op, expected: Seq<char>) -> bool {
    &&& op.affix is Interfix || op.affix is Circumfix
    &&& op.name@ == expected
}

/// Best-effort consumption of the expected keyword or bracket between the
/// operands of a multi-part construct: consume the next token exactly when
/// one is present, its descriptor sits in interfix or circumfix position,
/// and its name equals the name expected at slot `index` of `follow`. In
/// every other case — nothing expected at this boundary, wrong name, wrong
/// position, or no token present — consume nothing and succeed. A missing
/// or mismatched separator is deliberately skipped rather than rejected.
pub fn eat_interfix<P: PrattParser>(
    parser: &mut P,
    follow: &[&'static str],
    index: usize,
    inputs: &mut Tokens<P::Input>,
) -> (r: Result<(), P::Error>)
    ensures
        *final(parser) == *old(parser),
        is_suffix_of(final(inputs)@, old(inputs)@),
        expected_at(follow@, index as int).len() == 0
            ==> final(inputs)@ == old(inputs)@ && r is Ok,
        expected_at(follow@, index as int).len() > 0 && old(inputs)@.len() == 0
            ==> final(inputs)@ == old(inputs)@ && r is Ok,
        expected_at(follow@, index as int).len() > 0 && old(inputs)@.len() > 0
            ==> (match old(parser).query_spec(old(inputs)@[0]) {
            Err(e) => r == Err::<(), P::Error>(e) && final(inputs)@ == old(inputs)@,
            Ok(op) => r is Ok && if interfix_matches(op, expected_at(follow@, index as int)) {
                final(inputs)@ == old(inputs)@.skip(1)
            } else {
                final(inputs)@ == old(inputs)@
            },
        }),
{
    proof {
        lemma_suffix_refl(inputs@);
        reveal_strlit("");
    }
    let expected: &'static str = if index < follow.len() {
        follow[index]
    } else {
        ""
    };
    if expected.unicode_len() == 0 {
        return Ok(());
    }
    if inputs.is_empty() {
        return Ok(());
    }
    let op = match parser.query(inputs.peek()) {
        Ok(op) => op,
        Err(e) => return Err(e),
    };
    match op.affix {
        Affix::Interfix | Affix::Circumfix => {
            if str_eq(op.name, expected) {
                let _ = inputs.next();
                proof {
                    assert(inputs@ =~= old(inputs)@.skip(1));
                }
            }
        },
        _ => {},
    }
    Ok(())
}

/// Left-binding-power of the token under the cursor: whether it may
/// continue a preceding expression, by the policy of [`lbp_of`].
pub fn lbp<P: PrattParser>(parser: &mut P, input: &P::Input) -> (r: Result<Precedence, P::Error>)
    ensures
        *final(parser) == *old(parser),
        r == (match old(parser).query_spec(*input) {
            Ok(op) => Ok(Precedence(lbp_of(op))),
            Err(e) => Err::<Precedence, P::Error>(e),
        }),
{
    match parser.query(input) {
        Ok(op) => match op.affix {
            Affix::Postfix => Ok(op.precedence),
            Affix::Infix(_) => Ok(op.precedence),
            _ => Ok(Precedence::min()),
        },
        Err(e) => Err(e),
    }
}

/// Next-binding-power of a consumed token: the ceiling on what may attach
/// after its reduction completes, by the policy of [`nbp_of`].
pub fn nbp<P: PrattParser>(parser: &mut P, input: &P::Input) -> (r: Result<Precedence, P::Error>)
    ensures
        *final(parser) == *old(parser),
        r == (match old(parser).query_spec(*input) {
            Ok(op) => Ok(Precedence(nbp_of(op))),
            Err(e) => Err::<Precedence, P::Error>(e),
        }),
{
    match parser.query(input) {
        Ok(op) => match op.affix {
            Affix::Infix(Associativity::Left) => Ok(op.precedence.raise()),
            Affix::Infix(Associativity::Right) => Ok(op.precedence.raise()),
            Affix::Infix(Associativity::Null) => Ok(op.precedence),
            _ => Ok(Precedence::max()),
        },
        Err(e) => Err(e),
    }
}

/// The (position, operand count) shapes that may legally start an
/// expression: a complete nilfix expression, a prefix operator with one or
/// three operands, or an opening bracket with one operand.
pub open spec fn nud_legal(op: Op) -> bool {
    ||| op.affix is Nilfix && op.arity is Nullary
    ||| op.affix is Prefix && op.arity is Unary
    ||| op.affix is Prefix && op.arity is Ternary
    ||| op.affix is Circumfix && op.arity is Unary
}

/// The (position, operand count) shapes that may legally continue an
/// expression from a left operand: a postfix operator with one or three
/// operands, or an infix operator with two or three.
pub open spec fn led_legal(op: Op) -> bool {
    ||| op.affix is Postfix && op.arity is Unary
    ||| op.affix is Postfix && op.arity is Ternary
    ||| op.affix is Infix && op.arity is Binary
    ||| op.affix is Infix && op.arity is Ternary
}

/// A stream that consists of one single token whose descriptor is a
/// complete expression by itself.
pub open spec fn single_nilfix<P: PrattParser>(parser: P, toks: Seq<P::Input>) -> bool {
    &&& toks.len() == 1
    &&& (parser.query_spec(toks[0]) matches Ok(op) && op.affix is Nilfix && op.arity is Nullary)
}

/// A three-token stream holding one complete infix application: a nilfix
/// atom that reduces successfully, an infix binary operator strong enough
/// to be absorbed above the given floor, and a second nilfix atom that
/// reduces successfully — each descriptor looked up in the collaborator
/// state the engine reaches it in.
pub open spec fn simple_infix<P: PrattParser>(parser: P, toks: Seq<P::Input>, floor: u32) -> bool {
    let after_lhs = parser.nullary_state(toks[0]);
    &&& toks.len() == 3
    &&& (parser.query_spec(toks[0]) matches Ok(op) && op.affix is Nilfix && op.arity is Nullary)
    &&& parser.nullary_spec(toks[0]) is Ok
    &&& (after_lhs.query_spec(toks[1]) matches Ok(op) && op.affix is Infix && op.arity is Binary
        && floor < lbp_of(op) && lbp_of(op) < u32::MAX)
    &&& (after_lhs.query_spec(toks[2]) matches Ok(op) && op.affix is Nilfix
        && op.arity is Nullary)
    &&& after_lhs.nullary_spec(toks[2]) is Ok
}

/// What such a stream parses to: the binary reduction of the two atoms,
/// applied in the state both atom reductions have led to.
pub open spec fn simple_infix_result<P: PrattParser>(parser: P, toks: Seq<P::Input>) -> Result<
    P::Output,
    PrattError<P::Input, P::Error>,
> {
    let after_lhs = parser.nullary_state(toks[0]);
    let lhs = parser.nullary_spec(toks[0])->Ok_0;
    let rhs = after_lhs.nullary_spec(toks[2])->Ok_0;
    let after_rhs = after_lhs.nullary_state(toks[2]);
    from_collab(after_rhs.binary_spec(toks[1], lhs, rhs))
}

/// The collaborator state a complete infix application leaves behind: both
/// atom reductions followed by the binary reduction.
pub open spec fn simple_infix_state<P: PrattParser>(parser: P, toks: Seq<P::Input>) -> P {
    let after_lhs = parser.nullary_state(toks[0]);
    let after_rhs = after_lhs.nullary_state(toks[2]);
    after_rhs.binary_state(
        toks[1],
        parser.nullary_spec(toks[0])->Ok_0,
        after_lhs.nullary_spec(toks[2])->Ok_0,
    )
}

/// A two-token stream holding one complete prefix application: a prefix
/// unary operator followed by a nilfix atom that reduces successfully.
pub open spec fn simple_prefix<P: PrattParser>(parser: P, toks: Seq<P::Input>) -> bool {
    &&& toks.len() == 2
    &&& (parser.query_spec(toks[0]) matches Ok(op) && op.affix is Prefix && op.arity is Unary)
    &&& (parser.query_spec(toks[1]) matches Ok(op) && op.affix is Nilfix && op.arity is Nullary)
    &&& parser.nullary_spec(toks[1]) is Ok
}

/// What such a stream parses to: the unary reduction of the atom, applied
/// in the state the atom's reduction has led to.
pub open spec fn simple_prefix_result<P: PrattParser>(parser: P, toks: Seq<P::Input>) -> Result<
    P::Output,
    PrattError<P::Input, P::Error>,
> {
    from_collab(
        parser.nullary_state(toks[1]).unary_spec(toks[0], parser.nullary_spec(toks[1])->Ok_0),
    )
}

/// A two-token stream holding one complete postfix application: a nilfix
/// atom that reduces successfully, then a postfix unary operator strong
/// enough to be absorbed above the given floor.
pub open spec fn simple_postfix<P: PrattParser>(parser: P, toks: Seq<P::Input>, floor: u32) -> bool {
    let after_lhs = parser.nullary_state(toks[0]);
    &&& toks.len() == 2
    &&& (parser.query_spec(toks[0]) matches Ok(op) && op.affix is Nilfix && op.arity is Nullary)
    &&& parser.nullary_spec(toks[0]) is Ok
    &&& (after_lhs.query_spec(toks[1]) matches Ok(op) && op.affix is Postfix && op.arity is Unary
        && floor < lbp_of(op) && lbp_of(op) < u32::MAX)
}

/// What such a stream parses to: the unary reduction of the atom, applied
/// in the state the atom's reduction has led to.
pub open spec fn simple_postfix_result<P: PrattParser>(parser: P, toks: Seq<P::Input>) -> Result<
    P::Output,
    PrattError<P::Input, P::Error>,
> {
    let after_lhs = parser.nullary_state(toks[0]);
    from_collab(after_lhs.unary_spec(toks[1], parser.nullary_spec(toks[0])->Ok_0))
}

/// A stream of two or more tokens whose first token is a nilfix atom that
/// reduces successfully and whose second token's left-binding-power does
/// not clear the given floor, so that the loop may not absorb it.
pub open spec fn atom_before_weak_token<P: PrattParser>(
    parser: P,
    toks: Seq<P::Input>,
    floor: u32,
) -> bool {
    &&& toks.len() >= 2
    &&& (parser.query_spec(toks[0]) matches Ok(op) && op.affix is Nilfix && op.arity is Nullary)
    &&& parser.nullary_spec(toks[0]) is Ok
    &&& (parser.nullary_state(toks[0]).query_spec(toks[1]) matches Ok(op) && lbp_of(op) <= floor)
}

/// A two-token stream that completes a bracketing construct described by
/// `op`: a nilfix atom that reduces successfully, then the closing token —
/// one that never continues an expression on its own and that matches the
/// first follow slot of `op`.
pub open spec fn circumfix_operand<P: PrattParser>(parser: P, toks: Seq<P::Input>, op: Op) -> bool {
    &&& toks.len() == 2
    &&& (parser.query_spec(toks[0]) matches Ok(a) && a.affix is Nilfix && a.arity is Nullary)
    &&& parser.nullary_spec(toks[0]) is Ok
    &&& (parser.nullary_state(toks[0]).query_spec(toks[1]) matches Ok(c) && lbp_of(c) == u32::MIN
        && interfix_matches(c, expected_at(op.follow@, 0)))
    &&& expected_at(op.follow@, 0).len() > 0
}

/// A three-token stream holding one complete bracketing form: an opening
/// circumfix operator, a nilfix atom, and the matching closing token.
pub open spec fn simple_circumfix<P: PrattParser>(parser: P, toks: Seq<P::Input>) -> bool {
    &&& toks.len() == 3
    &&& (parser.query_spec(toks[0]) matches Ok(op) && op.affix is Circumfix && op.arity is Unary
        && circumfix_operand(parser, toks.skip(1), op))
}

/// What such a stream parses to: the unary reduction of the bracketed atom,
/// applied in the state the atom's reduction has led to; the closing token
/// is consumed along the way.
pub open spec fn simple_circumfix_result<P: PrattParser>(parser: P, toks: Seq<P::Input>) -> Result<
    P::Output,
    PrattError<P::Input, P::Error>,
> {
    from_collab(
        parser.nullary_state(toks[1]).unary_spec(toks[0], parser.nullary_spec(toks[1])->Ok_0),
    )
}

/// A five-token remainder that completes a prefix ternary construct
/// described by `op`: an atom, the first expected keyword, a second atom,
/// the second expected keyword, and a final atom — the atoms reducing
/// successfully and the keywords never continuing an expression on their
/// own.
pub open spec fn mixfix_operands<P: PrattParser>(parser: P, toks: Seq<P::Input>, op: Op) -> bool {
    let after_first = parser.nullary_state(toks[0]);
    let after_second = after_first.nullary_state(toks[2]);
    &&& toks.len() == 5
    &&& expected_at(op.follow@, 0).len() > 0
    &&& expected_at(op.follow@, 1).len() > 0
    &&& (parser.query_spec(toks[0]) matches Ok(a) && a.affix is Nilfix && a.arity is Nullary)
    &&& parser.nullary_spec(toks[0]) is Ok
    &&& (after_first.query_spec(toks[1]) matches Ok(c) && lbp_of(c) == u32::MIN
        && interfix_matches(c, expected_at(op.follow@, 0)))
    &&& (after_first.query_spec(toks[2]) matches Ok(a) && a.affix is Nilfix
        && a.arity is Nullary)
    &&& after_first.nullary_spec(toks[2]) is Ok
    &&& (after_second.query_spec(toks[3]) matches Ok(c) && lbp_of(c) == u32::MIN
        && interfix_matches(c, expected_at(op.follow@, 1)))
    &&& (after_second.query_spec(toks[4]) matches Ok(a) && a.affix is Nilfix
        && a.arity is Nullary)
    &&& after_second.nullary_spec(toks[4]) is Ok
}

/// What such a remainder reduces to under the operator token `input`: the
/// ternary reduction of the three atoms, applied in the state their three
/// reductions have led to; both keywords are consumed along the way.
pub open spec fn mixfix_result<P: PrattParser>(
    parser: P,
    toks: Seq<P::Input>,
    input: P::Input,
) -> Result<P::Output, PrattError<P::Input, P::Error>> {
    let after_first = parser.nullary_state(toks[0]);
    let after_second = after_first.nullary_state(toks[2]);
    let after_third = after_second.nullary_state(toks[4]);
    from_collab(
        after_third.ternary_spec(
            input,
            parser.nullary_spec(toks[0])->Ok_0,
            after_first.nullary_spec(toks[2])->Ok_0,
            after_second.nullary_spec(toks[4])->Ok_0,
        ),
    )
}

/// A six-token stream holding one complete prefix ternary construct with
/// both keywords in place.
pub open spec fn simple_mixfix<P: PrattParser>(parser: P, toks: Seq<P::Input>) -> bool {
    &&& toks.len() == 6
    &&& (parser.query_spec(toks[0]) matches Ok(op) && op.affix is Prefix && op.arity is Ternary
        && mixfix_operands(parser, toks.skip(1), op))
}

/// What such a stream parses to.
pub open spec fn simple_mixfix_result<P: PrattParser>(parser: P, toks: Seq<P::Input>) -> Result<
    P::Output,
    PrattError<P::Input, P::Error>,
> {
    mixfix_result(parser, toks.skip(1), toks[0])
}

/// A three-token remainder for a prefix ternary construct whose keywords
/// are absent from the input: three nilfix atoms in a row, each reducing
/// successfully. Keyword consumption is best-effort, so the construct
/// parses all the same.
pub open spec fn bare_mixfix_operands<P: PrattParser>(parser: P, toks: Seq<P::Input>) -> bool {
    let after_first = parser.nullary_state(toks[0]);
    let after_second = after_first.nullary_state(toks[1]);
    &&& toks.len() == 3
    &&& (parser.query_spec(toks[0]) matches Ok(a) && a.affix is Nilfix && a.arity is Nullary)
    &&& parser.nullary_spec(toks[0]) is Ok
    &&& (after_first.query_spec(toks[1]) matches Ok(a) && a.affix is Nilfix
        && a.arity is Nullary)
    &&& after_first.nullary_spec(toks[1]) is Ok
    &&& (after_second.query_spec(toks[2]) matches Ok(a) && a.affix is Nilfix
        && a.arity is Nullary)
    &&& after_second.nullary_spec(toks[2]) is Ok
}

/// What such a remainder reduces to under the operator token `input`: the
/// ternary reduction of the three atoms, with nothing consumed in place of
/// the absent keywords.
pub open spec fn bare_mixfix_result<P: PrattParser>(
    parser: P,
    toks: Seq<P::Input>,
    input: P::Input,
) -> Result<P::Output, PrattError<P::Input, P::Error>> {
    let after_first = parser.nullary_state(toks[0]);
    let after_second = after_first.nullary_state(toks[1]);
    let after_third = after_second.nullary_state(toks[2]);
    from_collab(
        after_third.ternary_spec(
            input,
            parser.nullary_spec(toks[0])->Ok_0,
            after_first.nullary_spec(toks[1])->Ok_0,
            after_second.nullary_spec(toks[2])->Ok_0,
        ),
    )
}

/// A four-token stream holding one prefix ternary construct with both
/// keywords absent.
pub open spec fn simple_bare_mixfix<P: PrattParser>(parser: P, toks: Seq<P::Input>) -> bool {
    &&& toks.len() == 4
    &&& (parser.query_spec(toks[0]) matches Ok(op) && op.affix is Prefix && op.arity is Ternary
        && bare_mixfix_operands(parser, toks.skip(1)))
}

/// What such a stream parses to.
pub open spec fn simple_bare_mixfix_result<P: PrattParser>(parser: P, toks: Seq<P::Input>) -> Result<
    P::Output,
    PrattError<P::Input, P::Error>,
> {
    bare_mixfix_result(parser, toks.skip(1), toks[0])
}

/// A five-token stream that reduces with left nesting: a complete infix
/// application in its first three tokens, whose right atom's parse stops
/// before the fourth token, then a second infix operator that the loop
/// absorbs afterwards, and a final atom. This is the shape of a
/// left-associative chain at one strength, and of two operators whose
/// second binds more weakly.
pub open spec fn left_nesting<P: PrattParser>(parser: P, toks: Seq<P::Input>, floor: u32) -> bool {
    let after_lhs = parser.nullary_state(toks[0]);
    let after_rhs = after_lhs.nullary_state(toks[2]);
    let mid = simple_infix_state(parser, toks.take(3));
    &&& toks.len() == 5
    &&& simple_infix(parser, toks.take(3), floor)
    &&& simple_infix_result(parser, toks.take(3)) is Ok
    &&& (after_lhs.query_spec(toks[1]) matches Ok(first) && (after_rhs.query_spec(toks[3])
        matches Ok(w)
        && lbp_of(w) <= rbp_of(first)) && (mid.query_spec(toks[3]) matches Ok(second)
        && second.affix is Infix && second.arity is Binary && floor < lbp_of(second)
        && lbp_of(second) < nbp_of(first)))
    &&& (mid.query_spec(toks[4]) matches Ok(op) && op.affix is Nilfix && op.arity is Nullary)
    &&& mid.nullary_spec(toks[4]) is Ok
}

/// What such a stream parses to: the second operator's binary reduction of
/// the first application's value and the final atom — the left-nested shape.
pub open spec fn left_nesting_result<P: PrattParser>(parser: P, toks: Seq<P::Input>) -> Result<
    P::Output,
    PrattError<P::Input, P::Error>,
> {
    let mid = simple_infix_state(parser, toks.take(3));
    let inner = simple_infix_result(parser, toks.take(3))->Ok_0;
    from_collab(
        mid.nullary_state(toks[4]).binary_spec(toks[3], inner, mid.nullary_spec(toks[4])->Ok_0),
    )
}

/// A five-token stream that reduces with right nesting: an atom, an infix
/// operator whose right-hand floor still admits the fourth token, and a
/// complete infix application in the last three tokens. This is the shape
/// of a right-associative chain at one strength, and of two operators whose
/// second binds more strongly.
pub open spec fn right_nesting<P: PrattParser>(parser: P, toks: Seq<P::Input>, floor: u32) -> bool {
    let after_lhs = parser.nullary_state(toks[0]);
    &&& toks.len() == 5
    &&& (parser.query_spec(toks[0]) matches Ok(op) && op.affix is Nilfix && op.arity is Nullary)
    &&& parser.nullary_spec(toks[0]) is Ok
    &&& (after_lhs.query_spec(toks[1]) matches Ok(first) && first.affix is Infix
        && first.arity is Binary && floor < lbp_of(first) && lbp_of(first) < u32::MAX
        && simple_infix(after_lhs, toks.skip(2), rbp_of(first)))
    &&& simple_infix_result(after_lhs, toks.skip(2)) is Ok
}

/// What such a stream parses to: the first operator's binary reduction of
/// the leading atom and the trailing application's value — the right-nested
/// shape.
pub open spec fn right_nesting_result<P: PrattParser>(parser: P, toks: Seq<P::Input>) -> Result<
    P::Output,
    PrattError<P::Input, P::Error>,
> {
    let after_lhs = parser.nullary_state(toks[0]);
    from_collab(
        simple_infix_state(after_lhs, toks.skip(2)).binary_spec(
            toks[1],
            parser.nullary_spec(toks[0])->Ok_0,
            simple_infix_result(after_lhs, toks.skip(2))->Ok_0,
        ),
    )
}

/// A stream whose first three tokens form a complete infix application and
/// whose fourth token's left-binding-power does not lie strictly below the
/// first operator's ceiling, so that the loop may not absorb it. A
/// non-associative operator met twice at the same strength has this shape:
/// its ceiling equals its own strength, and the second occurrence is
/// refused.
pub open spec fn chain_stops_at_ceiling<P: PrattParser>(
    parser: P,
    toks: Seq<P::Input>,
    floor: u32,
) -> bool {
    let after_lhs = parser.nullary_state(toks[0]);
    let after_rhs = after_lhs.nullary_state(toks[2]);
    let mid = simple_infix_state(parser, toks.take(3));
    &&& toks.len() >= 4
    &&& simple_infix(parser, toks.take(3), floor)
    &&& simple_infix_result(parser, toks.take(3)) is Ok
    &&& (after_lhs.query_spec(toks[1]) matches Ok(first) && (after_rhs.query_spec(toks[3])
        matches Ok(w)
        && lbp_of(w) <= rbp_of(first)) && (mid.query_spec(toks[3]) matches Ok(second)
        && lbp_of(second) >= nbp_of(first)))
}

/// Null-denotation: reduce a token that begins an expression. `input` has
/// already been consumed from the stream; the token's operand(s), if any,
/// are parsed recursively from what follows.
pub fn nud<P: PrattParser>(parser: &mut P, input: P::Input, inputs: &mut Tokens<P::Input>) -> (r:
    Result<P::Output, PrattError<P::Input, P::Error>>)
    ensures
        is_suffix_of(final(inputs)@, old(inputs)@),
        old(parser).query_spec(input) matches Err(e)
            ==> r == Err::<P::Output, PrattError<P::Input, P::Error>>(PrattError::External(e))
                && final(inputs)@ == old(inputs)@ && *final(parser) == *old(parser),
        (old(parser).query_spec(input) matches Ok(op) && op.affix is Nilfix
            && op.arity is Nullary)
            ==> final(inputs)@ == old(inputs)@
                && r == from_collab::<P::Output, P::Input, P::Error>(old(parser).nullary_spec(input))
                && *final(parser) == old(parser).nullary_state(input),
        (old(parser).query_spec(input) matches Ok(op) && !nud_legal(op))
            ==> r == Err::<P::Output, PrattError<P::Input, P::Error>>(PrattError::Misplaced(input))
                && final(inputs)@ == old(inputs)@ && *final(parser) == *old(parser),
        old(inputs)@.len() == 0 ==> (old(parser).query_spec(input) matches Ok(op)
            && nud_legal(op) && !(op.affix is Nilfix)
            ==> r == Err::<P::Output, PrattError<P::Input, P::Error>>(PrattError::Exhausted)),
        (old(parser).query_spec(input) matches Ok(op) && op.affix is Prefix && op.arity is Unary
            && single_nilfix(*old(parser), old(inputs)@)
            && old(parser).nullary_spec(old(inputs)@[0]) is Ok)
            ==> final(inputs)@.len() == 0
                && r == from_collab::<P::Output, P::Input, P::Error>(
                    old(parser).nullary_state(old(inputs)@[0]).unary_spec(
                        input,
                        old(parser).nullary_spec(old(inputs)@[0])->Ok_0,
                    ),
                ),
        (old(parser).query_spec(input) matches Ok(op) && op.affix is Prefix
            && op.arity is Ternary && mixfix_operands(*old(parser), old(inputs)@, op))
            ==> final(inputs)@.len() == 0
                && r == mixfix_result(*old(parser), old(inputs)@, input),
        (old(parser).query_spec(input) matches Ok(op) && op.affix is Prefix
            && op.arity is Ternary && bare_mixfix_operands(*old(parser), old(inputs)@))
            ==> final(inputs)@.len() == 0
                && r == bare_mixfix_result(*old(parser), old(inputs)@, input),
        (old(parser).query_spec(input) matches Ok(op) && op.affix is Circumfix
            && op.arity is Unary && circumfix_operand(*old(parser), old(inputs)@, op))
            ==> final(inputs)@.len() == 0
                && r == from_collab::<P::Output, P::Input, P::Error>(
                    old(parser).nullary_state(old(inputs)@[0]).unary_spec(
                        input,
                        old(parser).nullary_spec(old(inputs)@[0])->Ok_0,
                    ),
                ),
    decreases inputs@.len(), 1int,
{
    proof {
        lemma_suffix_refl(inputs@);
    }
    let op = match parser.query(&input) {
        Ok(op) => op,
        Err(e) => {
            return Err(PrattError::External(e));
        },
    };
    match (op.affix, op.arity) {
        (Affix::Nilfix, Arity::Nullary) => match parser.nullary(input) {
            Ok(o) => Ok(o),
            Err(e) => Err(PrattError::External(e)),
        },
        (Affix::Prefix, Arity::Unary) => {
            let floor = op.precedence.lower();
            let operand = match parse_until(parser, inputs, floor) {
                Ok(v) => v,
                Err(e) => {
                    return Err(e);
                },
            };
            match parser.unary(input, operand) {
                Ok(o) => Ok(o),
                Err(e) => Err(PrattError::External(e)),
            }
        },
        (Affix::Prefix, Arity::Ternary) => {
            let floor = op.precedence.lower();
            let lhs = match parse_until(parser, inputs, Precedence::min()) {
                Ok(v) => v,
                Err(e) => {
                    return Err(e);
                },
            };
            let ghost s1 = inputs@;
            if let Err(e) = eat_interfix(parser, op.follow, 0, inputs) {
                proof {
                    lemma_suffix_trans(inputs@, s1, old(inputs)@);
                }
                return Err(PrattError::External(e));
            }
            proof {
                lemma_suffix_trans(inputs@, s1, old(inputs)@);
            }
            let ghost s2 = inputs@;
            let mid = match parse_until(parser, inputs, Precedence::min()) {
                Ok(v) => v,
                Err(e) => {
                    proof {
                        lemma_suffix_trans(inputs@, s2, old(inputs)@);
                    }
                    return Err(e);
                },
            };
            proof {
                lemma_suffix_trans(inputs@, s2, old(inputs)@);
            }
            let ghost s3 = inputs@;
            if let Err(e) = eat_interfix(parser, op.follow, 1, inputs) {
                proof {
                    lemma_suffix_trans(inputs@, s3, old(inputs)@);
                }
                return Err(PrattError::External(e));
            }
            proof {
                lemma_suffix_trans(inputs@, s3, old(inputs)@);
            }
            let ghost s4 = inputs@;
            let rhs = match parse_until(parser, inputs, floor) {
                Ok(v) => v,
                Err(e) => {
                    proof {
                        lemma_suffix_trans(inputs@, s4, old(inputs)@);
                    }
                    return Err(e);
                },
            };
            proof {
                lemma_suffix_trans(inputs@, s4, old(inputs)@);
            }
            match parser.ternary(input, lhs, mid, rhs) {
                Ok(o) => Ok(o),
                Err(e) => Err(PrattError::External(e)),
            }
        },
        (Affix::Circumfix, Arity::Unary) => {
            let floor = op.precedence.lower();
            let operand = match parse_until(parser, inputs, floor) {
                Ok(v) => v,
                Err(e) => {
                    return Err(e);
                },
            };
            let ghost s1 = inputs@;
            if let Err(e) = eat_interfix(parser, op.follow, 0, inputs) {
                proof {
                    lemma_suffix_trans(inputs@, s1, old(inputs)@);
                }
                return Err(PrattError::External(e));
            }
            proof {
                lemma_suffix_trans(inputs@, s1, old(inputs)@);
            }
            match parser.unary(input, operand) {
                Ok(o) => Ok(o),
                Err(e) => Err(PrattError::External(e)),
            }
        },
        (_, _) => Err(PrattError::Misplaced(input)),
    }
}

/// Left-denotation: reduce a token that continues an expression, given the
/// already-built left operand. `input` has already been consumed from the
/// stream; further operand(s), if any, are parsed recursively.
pub fn led<P: PrattParser>(
    parser: &mut P,
    input: P::Input,
    inputs: &mut Tokens<P::Input>,
    lhs: P::Output,
) -> (r: Result<P::Output, PrattError<P::Input, P::Error>>)
    ensures
        is_suffix_of(final(inputs)@, old(inputs)@),
        old(parser).query_spec(input) matches Err(e)
            ==> r == Err::<P::Output, PrattError<P::Input, P::Error>>(PrattError::External(e))
                && final(inputs)@ == old(inputs)@ && *final(parser) == *old(parser),
        (old(parser).query_spec(input) matches Ok(op) && op.affix is Postfix
            && op.arity is Unary)
            ==> final(inputs)@ == old(inputs)@
                && r == from_collab::<P::Output, P::Input, P::Error>(old(parser).unary_spec(input, lhs)),
        (old(parser).query_spec(input) matches Ok(op) && !led_legal(op))
            ==> r == Err::<P::Output, PrattError<P::Input, P::Error>>(PrattError::Misplaced(input))
                && final(inputs)@ == old(inputs)@ && *final(parser) == *old(parser),
        (old(parser).query_spec(input) matches Ok(op) && op.affix is Infix && op.arity is Binary
            && single_nilfix(*old(parser), old(inputs)@)
            && old(parser).nullary_spec(old(inputs)@[0]) is Ok)
            ==> final(inputs)@.len() == 0
                && r == from_collab::<P::Output, P::Input, P::Error>(
                    old(parser).nullary_state(old(inputs)@[0]).binary_spec(
                        input,
                        lhs,
                        old(parser).nullary_spec(old(inputs)@[0])->Ok_0,
                    ),
                )
                && *final(parser) == old(parser).nullary_state(old(inputs)@[0]).binary_state(
                    input,
                    lhs,
                    old(parser).nullary_spec(old(inputs)@[0])->Ok_0,
                ),
        (old(parser).query_spec(input) matches Ok(op) && op.affix is Infix && op.arity is Binary
            && atom_before_weak_token(*old(parser), old(inputs)@, rbp_of(op)))
            ==> final(inputs)@ == old(inputs)@.skip(1)
                && r == from_collab::<P::Output, P::Input, P::Error>(
                    old(parser).nullary_state(old(inputs)@[0]).binary_spec(
                        input,
                        lhs,
                        old(parser).nullary_spec(old(inputs)@[0])->Ok_0,
                    ),
                )
                && *final(parser) == old(parser).nullary_state(old(inputs)@[0]).binary_state(
                    input,
                    lhs,
                    old(parser).nullary_spec(old(inputs)@[0])->Ok_0,
                ),
        (old(parser).query_spec(input) matches Ok(op) && op.affix is Infix && op.arity is Binary
            && simple_infix(*old(parser), old(inputs)@, rbp_of(op))
            && simple_infix_result(*old(parser), old(inputs)@) is Ok)
            ==> final(inputs)@.len() == 0
                && r == from_collab::<P::Output, P::Input, P::Error>(
                    simple_infix_state(*old(parser), old(inputs)@).binary_spec(
                        input,
                        lhs,
                        simple_infix_result(*old(parser), old(inputs)@)->Ok_0,
                    ),
                )
                && *final(parser) == simple_infix_state(*old(parser), old(inputs)@).binary_state(
                    input,
                    lhs,
                    simple_infix_result(*old(parser), old(inputs)@)->Ok_0,
                ),
    decreases inputs@.len(), 1int,
{
    proof {
        lemma_suffix_refl(inputs@);
    }
    let op = match parser.query(&input) {
        Ok(op) => op,
        Err(e) => {
            return Err(PrattError::External(e));
        },
    };
    match (op.affix, op.arity) {
        (Affix::Postfix, Arity::Unary) => match parser.unary(input, lhs) {
            Ok(o) => Ok(o),
            Err(e) => Err(PrattError::External(e)),
        },
        (Affix::Postfix, Arity::Ternary) => {
            let floor = op.precedence.lower();
            let mid = match parse_until(parser, inputs, Precedence::min()) {
                Ok(v) => v,
                Err(e) => {
                    return Err(e);
                },
            };
            let ghost s1 = inputs@;
            if let Err(e) = eat_interfix(parser, op.follow, 0, inputs) {
                proof {
                    lemma_suffix_trans(inputs@, s1, old(inputs)@);
                }
                return Err(PrattError::External(e));
            }
            proof {
                lemma_suffix_trans(inputs@, s1, old(inputs)@);
            }
            let ghost s2 = inputs@;
            let rhs = match parse_until(parser, inputs, floor) {
                Ok(v) => v,
                Err(e) => {
                    proof {
                        lemma_suffix_trans(inputs@, s2, old(inputs)@);
                    }
                    return Err(e);
                },
            };
            proof {
                lemma_suffix_trans(inputs@, s2, old(inputs)@);
            }
            match parser.ternary(input, lhs, mid, rhs) {
                Ok(o) => Ok(o),
                Err(e) => Err(PrattError::External(e)),
            }
        },
        (Affix::Infix(assoc), Arity::Binary) => {
            let floor = match assoc {
                Associativity::Left => op.precedence,
                Associativity::Right => op.precedence.lower(),
                Associativity::Null => op.precedence,
            };
            let rhs = match parse_until(parser, inputs, floor) {
                Ok(v) => v,
                Err(e) => {
                    return Err(e);
                },
            };
            match parser.binary(input, lhs, rhs) {
                Ok(o) => Ok(o),
                Err(e) => Err(PrattError::External(e)),
            }
        },
        (Affix::Infix(assoc), Arity::Ternary) => {
            let floor = match assoc {
                Associativity::Left => op.precedence,
                Associativity::Right => op.precedence.lower(),
                Associativity::Null => op.precedence,
            };
            let mid = match parse_until(parser, inputs, Precedence::min()) {
                Ok(v) => v,
                Err(e) => {
                    return Err(e);
                },
            };
            let ghost s1 = inputs@;
            if let Err(e) = eat_interfix(parser, op.follow, 0, inputs) {
                proof {
                    lemma_suffix_trans(inputs@, s1, old(inputs)@);
                }
                return Err(PrattError::External(e));
            }
            proof {
                lemma_suffix_trans(inputs@, s1, old(inputs)@);
            }
            let ghost s2 = inputs@;
            let rhs = match parse_until(parser, inputs, floor) {
                Ok(v) => v,
                Err(e) => {
                    proof {
                        lemma_suffix_trans(inputs@, s2, old(inputs)@);
                    }
                    return Err(e);
                },
            };
            proof {
                lemma_suffix_trans(inputs@, s2, old(inputs)@);
            }
            match parser.ternary(input, lhs, mid, rhs) {
                Ok(o) => Ok(o),
                Err(e) => Err(PrattError::External(e)),
            }
        },
        (_, _) => Err(PrattError::Misplaced(input)),
    }
}

/// Parse one expression from the stream, absorbing following tokens only
/// while their left-binding-power lies strictly above `floor` and strictly
/// below the ceiling set by the last consumed operator. This is the
/// sub-expression entry point; callers building custom recursive constructs
/// may resume a partial parse through it.
///
/// An empty stream is a fatal failure: an expression was expected and no
/// token is available at all. On any outcome the stream only moves forward,
/// and a successful parse consumes at least one token. A stream consisting
/// of one single nilfix token reduces to exactly the nullary reducer's
/// output for that token, the whole stream being consumed.
pub fn parse_until<P: PrattParser>(
    parser: &mut P,
    inputs: &mut Tokens<P::Input>,
    floor: Precedence,
) -> (r: Result<P::Output, PrattError<P::Input, P::Error>>)
    ensures
        is_suffix_of(final(inputs)@, old(inputs)@),
        old(inputs)@.len() == 0
            ==> r == Err::<P::Output, PrattError<P::Input, P::Error>>(PrattError::Exhausted)
                && final(inputs)@ == old(inputs)@,
        r is Ok ==> final(inputs)@.len() < old(inputs)@.len(),
        single_nilfix(*old(parser), old(inputs)@)
            ==> final(inputs)@.len() == 0
                && r == from_collab::<P::Output, P::Input, P::Error>(
                    old(parser).nullary_spec(old(inputs)@[0]),
                ),
        old(inputs)@.len() > 0 ==> (old(parser).query_spec(old(inputs)@[0]) matches Err(e)
            ==> r == Err::<P::Output, PrattError<P::Input, P::Error>>(PrattError::External(e))),
        old(inputs)@.len() > 0 ==> (old(parser).query_spec(old(inputs)@[0]) matches Ok(op)
            && !nud_legal(op) ==> r == Err::<P::Output, PrattError<P::Input, P::Error>>(
            PrattError::Misplaced(old(inputs)@[0]),
        )),
        old(inputs)@.len() == 1 ==> (old(parser).query_spec(old(inputs)@[0]) matches Ok(op)
            && nud_legal(op) && !(op.affix is Nilfix)
            ==> r == Err::<P::Output, PrattError<P::Input, P::Error>>(PrattError::Exhausted)),
        single_nilfix(*old(parser), old(inputs)@) && old(parser).nullary_spec(old(inputs)@[0]) is Ok
            ==> *final(parser) == old(parser).nullary_state(old(inputs)@[0]),
        simple_infix(*old(parser), old(inputs)@, floor.0)
            ==> final(inputs)@.len() == 0
                && r == simple_infix_result(*old(parser), old(inputs)@)
                && *final(parser) == simple_infix_state(*old(parser), old(inputs)@),
        simple_prefix(*old(parser), old(inputs)@)
            ==> final(inputs)@.len() == 0
                && r == simple_prefix_result(*old(parser), old(inputs)@),
        simple_postfix(*old(parser), old(inputs)@, floor.0)
            ==> final(inputs)@.len() == 0
                && r == simple_postfix_result(*old(parser), old(inputs)@),
        atom_before_weak_token(*old(parser), old(inputs)@, floor.0)
            ==> final(inputs)@ == old(inputs)@.skip(1)
                && r == from_collab::<P::Output, P::Input, P::Error>(
                    old(parser).nullary_spec(old(inputs)@[0]),
                )
                && *final(parser) == old(parser).nullary_state(old(inputs)@[0]),
        simple_circumfix(*old(parser), old(inputs)@)
            ==> final(inputs)@.len() == 0
                && r == simple_circumfix_result(*old(parser), old(inputs)@),
        simple_mixfix(*old(parser), old(inputs)@)
            ==> final(inputs)@.len() == 0
                && r == simple_mixfix_result(*old(parser), old(inputs)@),
        simple_bare_mixfix(*old(parser), old(inputs)@)
            ==> final(inputs)@.len() == 0
                && r == simple_bare_mixfix_result(*old(parser), old(inputs)@),
        left_nesting(*old(parser), old(inputs)@, floor.0)
            ==> final(inputs)@.len() == 0
                && r == left_nesting_result(*old(parser), old(inputs)@),
        right_nesting(*old(parser), old(inputs)@, floor.0)
            ==> final(inputs)@.len() == 0
                && r == right_nesting_result(*old(parser), old(inputs)@),
        chain_stops_at_ceiling(*old(parser), old(inputs)@, floor.0)
            ==> final(inputs)@ == old(inputs)@.skip(3)
                && r == simple_infix_result(*old(parser), old(inputs)@.take(3))
                && *final(parser) == simple_infix_state(*old(parser), old(inputs)@.take(3)),
    decreases inputs@.len(), 0int,
{
    proof {
        lemma_suffix_refl(inputs@);
    }
    if inputs.is_empty() {
        return Err(PrattError::Exhausted);
    }
    let ghost orig: Seq<P::Input> = inputs@;
    let ghost p0: P = *parser;
    let first = inputs.next();
    let mut ceiling = match nbp(parser, &first) {
        Ok(c) => c,
        Err(e) => {
            proof {
                assert(is_suffix_of(inputs@, orig));
            }
            return Err(PrattError::External(e));
        },
    };
    proof {
        assert(is_suffix_of(inputs@, orig));
    }
    let ghost s1 = inputs@;
    let mut node = match nud(parser, first, inputs) {
        Ok(n) => n,
        Err(e) => {
            proof {
                lemma_suffix_trans(inputs@, s1, orig);
            }
            return Err(e);
        },
    };
    proof {
        lemma_suffix_trans(inputs@, s1, orig);
    }
    loop
        invariant
            inputs@.len() < orig.len(),
            is_suffix_of(inputs@, orig),
            orig == old(inputs)@,
            p0 == *old(parser),
            p0.query_spec(orig[0]) matches Ok(op) && nud_legal(op),
            orig.len() == 1 ==> (p0.query_spec(orig[0]) matches Ok(op) && op.affix is Nilfix),
            single_nilfix(p0, orig) ==> inputs@.len() == 0 && Ok::<P::Output, PrattError<
                P::Input,
                P::Error,
            >>(node) == from_collab::<P::Output, P::Input, P::Error>(p0.nullary_spec(orig[0]))
                && *parser == p0.nullary_state(orig[0]),
            simple_infix(p0, orig, floor.0) ==> {
                ||| (inputs@ == orig.skip(1) && *parser == p0.nullary_state(orig[0])
                    && ceiling.0 == u32::MAX && Ok::<P::Output, PrattError<P::Input, P::Error>>(
                    node,
                ) == from_collab::<P::Output, P::Input, P::Error>(p0.nullary_spec(orig[0])))
                ||| (inputs@.len() == 0 && Ok::<P::Output, PrattError<P::Input, P::Error>>(node)
                    == simple_infix_result(p0, orig) && *parser == simple_infix_state(p0, orig))
            },
            simple_prefix(p0, orig) ==> inputs@.len() == 0 && Ok::<
                P::Output,
                PrattError<P::Input, P::Error>,
            >(node) == simple_prefix_result(p0, orig),
            atom_before_weak_token(p0, orig, floor.0) ==> inputs@ == orig.skip(1) && Ok::<
                P::Output,
                PrattError<P::Input, P::Error>,
            >(node) == from_collab::<P::Output, P::Input, P::Error>(p0.nullary_spec(orig[0]))
                && *parser == p0.nullary_state(orig[0]),
            simple_circumfix(p0, orig) ==> inputs@.len() == 0 && Ok::<
                P::Output,
                PrattError<P::Input, P::Error>,
            >(node) == simple_circumfix_result(p0, orig),
            simple_mixfix(p0, orig) ==> inputs@.len() == 0 && Ok::<
                P::Output,
                PrattError<P::Input, P::Error>,
            >(node) == simple_mixfix_result(p0, orig),
            simple_bare_mixfix(p0, orig) ==> inputs@.len() == 0 && Ok::<
                P::Output,
                PrattError<P::Input, P::Error>,
            >(node) == simple_bare_mixfix_result(p0, orig),
            left_nesting(p0, orig, floor.0) ==> {
                ||| (inputs@ == orig.skip(1) && *parser == p0.nullary_state(orig[0])
                    && ceiling.0 == u32::MAX && Ok::<P::Output, PrattError<P::Input, P::Error>>(
                    node,
                ) == from_collab::<P::Output, P::Input, P::Error>(p0.nullary_spec(orig[0])))
                ||| (inputs@ == orig.skip(3) && *parser == simple_infix_state(p0, orig.take(3))
                    && (p0.nullary_state(orig[0]).query_spec(orig[1]) matches Ok(first)
                    && ceiling.0 == nbp_of(first)) && Ok::<
                    P::Output,
                    PrattError<P::Input, P::Error>,
                >(node) == simple_infix_result(p0, orig.take(3)))
                ||| (inputs@.len() == 0 && Ok::<P::Output, PrattError<P::Input, P::Error>>(node)
                    == left_nesting_result(p0, orig))
            },
            right_nesting(p0, orig, floor.0) ==> {
                ||| (inputs@ == orig.skip(1) && *parser == p0.nullary_state(orig[0])
                    && ceiling.0 == u32::MAX && Ok::<P::Output, PrattError<P::Input, P::Error>>(
                    node,
                ) == from_collab::<P::Output, P::Input, P::Error>(p0.nullary_spec(orig[0])))
                ||| (inputs@.len() == 0 && Ok::<P::Output, PrattError<P::Input, P::Error>>(node)
                    == right_nesting_result(p0, orig))
            },
            chain_stops_at_ceiling(p0, orig, floor.0) ==> {
                ||| (inputs@ == orig.skip(1) && *parser == p0.nullary_state(orig[0])
                    && ceiling.0 == u32::MAX && Ok::<P::Output, PrattError<P::Input, P::Error>>(
                    node,
                ) == from_collab::<P::Output, P::Input, P::Error>(p0.nullary_spec(orig[0])))
                ||| (inputs@ == orig.skip(3) && *parser == simple_infix_state(p0, orig.take(3))
                    && (p0.nullary_state(orig[0]).query_spec(orig[1]) matches Ok(first)
                    && ceiling.0 == nbp_of(first)) && Ok::<
                    P::Output,
                    PrattError<P::Input, P::Error>,
                >(node) == simple_infix_result(p0, orig.take(3)))
            },
            simple_postfix(p0, orig, floor.0) ==> {
                ||| (inputs@ == orig.skip(1) && *parser == p0.nullary_state(orig[0])
                    && ceiling.0 == u32::MAX && Ok::<P::Output, PrattError<P::Input, P::Error>>(
                    node,
                ) == from_collab::<P::Output, P::Input, P::Error>(p0.nullary_spec(orig[0])))
                ||| (inputs@.len() == 0 && Ok::<P::Output, PrattError<P::Input, P::Error>>(node)
                    == simple_postfix_result(p0, orig))
            },
        ensures
            simple_infix(p0, orig, floor.0) ==> inputs@.len() == 0 && Ok::<
                P::Output,
                PrattError<P::Input, P::Error>,
            >(node) == simple_infix_result(p0, orig) && *parser == simple_infix_state(p0, orig),
            simple_prefix(p0, orig) ==> inputs@.len() == 0 && Ok::<
                P::Output,
                PrattError<P::Input, P::Error>,
            >(node) == simple_prefix_result(p0, orig),
            simple_postfix(p0, orig, floor.0) ==> inputs@.len() == 0 && Ok::<
                P::Output,
                PrattError<P::Input, P::Error>,
            >(node) == simple_postfix_result(p0, orig),
            atom_before_weak_token(p0, orig, floor.0) ==> inputs@ == orig.skip(1) && Ok::<
                P::Output,
                PrattError<P::Input, P::Error>,
            >(node) == from_collab::<P::Output, P::Input, P::Error>(p0.nullary_spec(orig[0]))
                && *parser == p0.nullary_state(orig[0]),
            simple_circumfix(p0, orig) ==> inputs@.len() == 0 && Ok::<
                P::Output,
                PrattError<P::Input, P::Error>,
            >(node) == simple_circumfix_result(p0, orig),
            simple_mixfix(p0, orig) ==> inputs@.len() == 0 && Ok::<
                P::Output,
                PrattError<P::Input, P::Error>,
            >(node) == simple_mixfix_result(p0, orig),
            simple_bare_mixfix(p0, orig) ==> inputs@.len() == 0 && Ok::<
                P::Output,
                PrattError<P::Input, P::Error>,
            >(node) == simple_bare_mixfix_result(p0, orig),
            left_nesting(p0, orig, floor.0) ==> inputs@.len() == 0 && Ok::<
                P::Output,
                PrattError<P::Input, P::Error>,
            >(node) == left_nesting_result(p0, orig),
            right_nesting(p0, orig, floor.0) ==> inputs@.len() == 0 && Ok::<
                P::Output,
                PrattError<P::Input, P::Error>,
            >(node) == right_nesting_result(p0, orig),
            chain_stops_at_ceiling(p0, orig, floor.0) ==> inputs@ == orig.skip(3) && Ok::<
                P::Output,
                PrattError<P::Input, P::Error>,
            >(node) == simple_infix_result(p0, orig.take(3)) && *parser == simple_infix_state(
                p0,
                orig.take(3),
            ),
        decreases inputs@.len(),
    {
        if inputs.is_empty() {
            break ;
        }
        let next_lbp = match lbp(parser, inputs.peek()) {
            Ok(l) => l,
            Err(e) => {
                return Err(PrattError::External(e));
            },
        };
        if !(floor.0 < next_lbp.0 && next_lbp.0 < ceiling.0) {
            break ;
        }
        let ghost s2 = inputs@;
        let u = inputs.next();
        ceiling = match nbp(parser, &u) {
            Ok(c) => c,
            Err(e) => {
                proof {
                    lemma_suffix_trans(inputs@, s2, orig);
                }
                return Err(PrattError::External(e));
            },
        };
        proof {
            lemma_suffix_trans(inputs@, s2, orig);
        }
        let ghost s3 = inputs@;
        node = match led(parser, u, inputs, node) {
            Ok(n) => n,
            Err(e) => {
                proof {
                    lemma_suffix_trans(inputs@, s3, orig);
                }
                return Err(e);
            },
        };
        proof {
            lemma_suffix_trans(inputs@, s3, orig);
        }
    }
    Ok(node)
}

/// Parse a whole token stream: one expression, with the minimum strength as
/// the initial floor. The engine holds no state across separate top-level
/// parses; the caller receives either a completed output value or the
/// single failure encountered first.
pub fn parse<P: PrattParser>(parser: &mut P, inputs: &mut Tokens<P::Input>) -> (r: Result<
    P::Output,
    PrattError<P::Input, P::Error>,
>)
    ensures
        is_suffix_of(final(inputs)@, old(inputs)@),
        old(inputs)@.len() == 0
            ==> r == Err::<P::Output, PrattError<P::Input, P::Error>>(PrattError::Exhausted)
                && final(inputs)@ == old(inputs)@,
        r is Ok ==> final(inputs)@.len() < old(inputs)@.len(),
        single_nilfix(*old(parser), old(inputs)@)
            ==> final(inputs)@.len() == 0
                && r == from_collab::<P::Output, P::Input, P::Error>(
                    old(parser).nullary_spec(old(inputs)@[0]),
                ),
        old(inputs)@.len() > 0 ==> (old(parser).query_spec(old(inputs)@[0]) matches Err(e)
            ==> r == Err::<P::Output, PrattError<P::Input, P::Error>>(PrattError::External(e))),
        old(inputs)@.len() > 0 ==> (old(parser).query_spec(old(inputs)@[0]) matches Ok(op)
            && !nud_legal(op) ==> r == Err::<P::Output, PrattError<P::Input, P::Error>>(
            PrattError::Misplaced(old(inputs)@[0]),
        )),
        old(inputs)@.len() == 1 ==> (old(parser).query_spec(old(inputs)@[0]) matches Ok(op)
            && nud_legal(op) && !(op.affix is Nilfix)
            ==> r == Err::<P::Output, PrattError<P::Input, P::Error>>(PrattError::Exhausted)),
        simple_infix(*old(parser), old(inputs)@, u32::MIN)
            ==> final(inputs)@.len() == 0
                && r == simple_infix_result(*old(parser), old(inputs)@),
        simple_prefix(*old(parser), old(inputs)@)
            ==> final(inputs)@.len() == 0
                && r == simple_prefix_result(*old(parser), old(inputs)@),
        simple_postfix(*old(parser), old(inputs)@, u32::MIN)
            ==> final(inputs)@.len() == 0
                && r == simple_postfix_result(*old(parser), old(inputs)@),
        simple_circumfix(*old(parser), old(inputs)@)
            ==> final(inputs)@.len() == 0
                && r == simple_circumfix_result(*old(parser), old(inputs)@),
        simple_mixfix(*old(parser), old(inputs)@)
            ==> final(inputs)@.len() == 0
                && r == simple_mixfix_result(*old(parser), old(inputs)@),
        simple_bare_mixfix(*old(parser), old(inputs)@)
            ==> final(inputs)@.len() == 0
                && r == simple_bare_mixfix_result(*old(parser), old(inputs)@),
        left_nesting(*old(parser), old(inputs)@, u32::MIN)
            ==> final(inputs)@.len() == 0
                && r == left_nesting_result(*old(parser), old(inputs)@),
        right_nesting(*old(parser), old(inputs)@, u32::MIN)
            ==> final(inputs)@.len() == 0
                && r == right_nesting_result(*old(parser), old(inputs)@),
        chain_stops_at_ceiling(*old(parser), old(inputs)@, u32::MIN)
            ==> final(inputs)@ == old(inputs)@.skip(3)
                && r == simple_infix_result(*old(parser), old(inputs)@.take(3))
                && *final(parser) == simple_infix_state(*old(parser), old(inputs)@.take(3)),
{
    parse_until(parser, inputs, Precedence::min())
}

} // verus!
