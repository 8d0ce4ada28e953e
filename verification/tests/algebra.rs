//! The precedence algebra, the operator descriptor builders, and the token
//! cursor, exercised on concrete values.

use pratt::Affix;
use pratt::Arity;
use pratt::Associativity;
use pratt::Op;
use pratt::Precedence;
use pratt::Tokens;

#[test]
fn lower_and_raise_move_by_one_step() {
    assert_eq!(Precedence(5).lower().0, 4);
    assert_eq!(Precedence(5).raise().0, 6);
}

#[test]
fn lower_saturates_at_the_minimum() {
    assert_eq!(Precedence::min().lower().0, Precedence::min().0);
    assert_eq!(Precedence(0).lower().0, 0);
}

#[test]
fn raise_saturates_at_the_maximum() {
    assert_eq!(Precedence::max().raise().0, Precedence::max().0);
    assert_eq!(Precedence(u32::MAX).raise().0, u32::MAX);
}

#[test]
fn sentinels_bound_every_strength() {
    assert_eq!(Precedence::min().0, u32::MIN);
    assert_eq!(Precedence::max().0, u32::MAX);
    assert!(Precedence::min().0 <= Precedence(42).0);
    assert!(Precedence(42).0 <= Precedence::max().0);
}

#[test]
fn descriptor_starts_with_no_follow_tokens() {
    let op = Op::new("+", Affix::Infix(Associativity::Left), Arity::Binary, Precedence(10));
    assert_eq!(op.name, "+");
    assert_eq!(op.affix, Affix::Infix(Associativity::Left));
    assert_eq!(op.arity, Arity::Binary);
    assert_eq!(op.precedence, Precedence(10));
    assert!(op.follow.is_empty());
}

#[test]
fn followed_by_sets_the_follow_tokens() {
    let op = Op::new("if", Affix::Prefix, Arity::Ternary, Precedence(4))
        .followed_by(&["then", "else"]);
    assert_eq!(op.follow, &["then", "else"]);
    assert_eq!(op.name, "if");
    assert_eq!(op.precedence, Precedence(4));
}

#[test]
fn cursor_moves_strictly_forward() {
    let mut t = Tokens::new(vec![1u32, 2, 3]);
    assert_eq!(t.len(), 3);
    assert!(!t.is_empty());
    assert_eq!(*t.peek(), 1);
    assert_eq!(t.next(), 1);
    assert_eq!(*t.peek(), 2);
    assert_eq!(t.next(), 2);
    assert_eq!(t.next(), 3);
    assert!(t.is_empty());
}
