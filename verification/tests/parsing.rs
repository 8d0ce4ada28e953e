//! End-to-end parses of a small demonstration grammar: atoms, arithmetic
//! infix operators of both associativities, a non-associative infix
//! operator, prefix and postfix unary operators, an `if … then … else`
//! construct, a conditional `? :`, a postfix ternary form, and a
//! single-character bracketing form.

use pratt::Affix;
use pratt::Arity;
use pratt::Associativity;
use pratt::Op;
use pratt::Precedence;
use pratt::PrattError;
use pratt::PrattParser;
use pratt::Tokens;
use pratt::parse;
use pratt::parse_until;

#[derive(Debug, PartialEq, Clone)]
enum Expr {
    Atom(String),
    Un(String, Box<Expr>),
    Bin(String, Box<Expr>, Box<Expr>),
    Ter(String, Box<Expr>, Box<Expr>, Box<Expr>),
}

fn atom(name: &str) -> Expr {
    Expr::Atom(name.to_string())
}

fn un(name: &str, a: Expr) -> Expr {
    Expr::Un(name.to_string(), Box::new(a))
}

fn bin(name: &str, a: Expr, b: Expr) -> Expr {
    Expr::Bin(name.to_string(), Box::new(a), Box::new(b))
}

fn ter(name: &str, a: Expr, b: Expr, c: Expr) -> Expr {
    Expr::Ter(name.to_string(), Box::new(a), Box::new(b), Box::new(c))
}

/// The demonstration grammar. The strengths of the unary prefix `-` and the
/// unary postfix `!` are configurable so that either can bind tighter.
struct Grammar {
    neg: u32,
    bang: u32,
}

fn grammar() -> Grammar {
    Grammar { neg: 15, bang: 22 }
}

impl PrattParser for Grammar {
    type Error = String;
    type Input = String;
    type Output = Expr;

    // The *_spec items are the trait's specification hooks: ghost functions
    // that describe the methods below to the verifier. Nothing calls them at
    // run time.
    fn query_spec(&self, _input: String) -> Result<Op, String> {
        unreachable!()
    }

    fn nullary_spec(&self, _input: String) -> Result<Expr, String> {
        unreachable!()
    }

    fn nullary_state(&self, _input: String) -> Grammar {
        unreachable!()
    }

    fn unary_spec(&self, _input: String, _operand: Expr) -> Result<Expr, String> {
        unreachable!()
    }

    fn unary_state(&self, _input: String, _operand: Expr) -> Grammar {
        unreachable!()
    }

    fn binary_spec(&self, _input: String, _lhs: Expr, _rhs: Expr) -> Result<Expr, String> {
        unreachable!()
    }

    fn binary_state(&self, _input: String, _lhs: Expr, _rhs: Expr) -> Grammar {
        unreachable!()
    }

    fn ternary_spec(
        &self,
        _input: String,
        _lhs: Expr,
        _mid: Expr,
        _rhs: Expr,
    ) -> Result<Expr, String> {
        unreachable!()
    }

    fn ternary_state(&self, _input: String, _lhs: Expr, _mid: Expr, _rhs: Expr) -> Grammar {
        unreachable!()
    }

    fn query(&mut self, input: &String) -> Result<Op, String> {
        match input.as_str() {
            "a" => Ok(Op::new("a", Affix::Nilfix, Arity::Nullary, Precedence(0))),
            "b" => Ok(Op::new("b", Affix::Nilfix, Arity::Nullary, Precedence(0))),
            "c" => Ok(Op::new("c", Affix::Nilfix, Arity::Nullary, Precedence(0))),
            "p" => Ok(Op::new("p", Affix::Nilfix, Arity::Nullary, Precedence(0))),
            "+" => Ok(Op::new(
                "+",
                Affix::Infix(Associativity::Left),
                Arity::Binary,
                Precedence(10),
            )),
            "*" => Ok(Op::new(
                "*",
                Affix::Infix(Associativity::Left),
                Arity::Binary,
                Precedence(20),
            )),
            "=" => Ok(Op::new(
                "=",
                Affix::Infix(Associativity::Right),
                Arity::Binary,
                Precedence(10),
            )),
            "~" => Ok(Op::new(
                "~",
                Affix::Infix(Associativity::Null),
                Arity::Binary,
                Precedence(10),
            )),
            "-" => Ok(Op::new("-", Affix::Prefix, Arity::Unary, Precedence(self.neg))),
            "!" => Ok(Op::new("!", Affix::Postfix, Arity::Unary, Precedence(self.bang))),
            "if" => Ok(Op::new("if", Affix::Prefix, Arity::Ternary, Precedence(4))
                .followed_by(&["then", "else"])),
            "then" => Ok(Op::new("then", Affix::Interfix, Arity::Nullary, Precedence(0))),
            "else" => Ok(Op::new("else", Affix::Interfix, Arity::Nullary, Precedence(0))),
            "fi" => Ok(Op::new("fi", Affix::Interfix, Arity::Nullary, Precedence(0))),
            "&" => Ok(Op::new(
                "&",
                Affix::Infix(Associativity::Left),
                Arity::Unary,
                Precedence(12),
            )),
            "|" => Ok(Op::new("|", Affix::Circumfix, Arity::Unary, Precedence(30))
                .followed_by(&["|"])),
            "?" => Ok(Op::new(
                "?",
                Affix::Infix(Associativity::Right),
                Arity::Ternary,
                Precedence(5),
            )
            .followed_by(&[":"])),
            ":" => Ok(Op::new(":", Affix::Interfix, Arity::Nullary, Precedence(0))),
            "@" => Ok(Op::new("@", Affix::Postfix, Arity::Ternary, Precedence(25))
                .followed_by(&[";"])),
            ";" => Ok(Op::new(";", Affix::Interfix, Arity::Nullary, Precedence(0))),
            other => Err(format!("unrecognized token: {}", other)),
        }
    }

    fn nullary(&mut self, input: String) -> Result<Expr, String> {
        Ok(Expr::Atom(input))
    }

    fn unary(&mut self, input: String, operand: Expr) -> Result<Expr, String> {
        Ok(Expr::Un(input, Box::new(operand)))
    }

    fn binary(&mut self, input: String, lhs: Expr, rhs: Expr) -> Result<Expr, String> {
        Ok(Expr::Bin(input, Box::new(lhs), Box::new(rhs)))
    }

    fn ternary(&mut self, input: String, lhs: Expr, mid: Expr, rhs: Expr) -> Result<Expr, String> {
        Ok(Expr::Ter(input, Box::new(lhs), Box::new(mid), Box::new(rhs)))
    }
}

fn toks(words: &[&str]) -> Tokens<String> {
    Tokens::new(words.iter().map(|w| w.to_string()).collect())
}

#[test]
fn single_nilfix_token_reduces_to_its_atom() {
    let mut g = grammar();
    let mut t = toks(&["a"]);
    assert_eq!(parse(&mut g, &mut t), Ok(atom("a")));
    assert_eq!(t.len(), 0);
}

#[test]
fn left_associative_chain_reduces_from_the_left() {
    let mut g = grammar();
    let mut t = toks(&["a", "+", "b", "+", "c"]);
    assert_eq!(parse(&mut g, &mut t), Ok(bin("+", bin("+", atom("a"), atom("b")), atom("c"))));
    assert!(t.is_empty());
}

#[test]
fn right_associative_chain_reduces_from_the_right() {
    let mut g = grammar();
    let mut t = toks(&["a", "=", "b", "=", "c"]);
    assert_eq!(parse(&mut g, &mut t), Ok(bin("=", atom("a"), bin("=", atom("b"), atom("c")))));
    assert!(t.is_empty());
}

#[test]
fn non_associative_operator_cannot_chain() {
    let mut g = grammar();
    let mut t = toks(&["a", "~", "b", "~", "c"]);
    // The first parse stops before the second same-strength operator …
    assert_eq!(parse(&mut g, &mut t), Ok(bin("~", atom("a"), atom("b"))));
    assert_eq!(t.len(), 2);
    // … which then cannot legally start an expression of its own.
    assert_eq!(parse(&mut g, &mut t), Err(PrattError::Misplaced("~".to_string())));
}

#[test]
fn stronger_operator_binds_on_the_right() {
    let mut g = grammar();
    let mut t = toks(&["a", "+", "b", "*", "c"]);
    assert_eq!(parse(&mut g, &mut t), Ok(bin("+", atom("a"), bin("*", atom("b"), atom("c")))));
}

#[test]
fn stronger_operator_binds_on_the_left() {
    let mut g = grammar();
    let mut t = toks(&["a", "*", "b", "+", "c"]);
    assert_eq!(parse(&mut g, &mut t), Ok(bin("+", bin("*", atom("a"), atom("b")), atom("c"))));
}

#[test]
fn tighter_postfix_reduces_inside_the_prefix() {
    let mut g = Grammar { neg: 15, bang: 22 };
    let mut t = toks(&["-", "a", "!"]);
    assert_eq!(parse(&mut g, &mut t), Ok(un("-", un("!", atom("a")))));
}

#[test]
fn tighter_prefix_reduces_inside_the_postfix() {
    let mut g = Grammar { neg: 22, bang: 15 };
    let mut t = toks(&["-", "a", "!"]);
    assert_eq!(parse(&mut g, &mut t), Ok(un("!", un("-", atom("a")))));
}

#[test]
fn mixfix_construct_consumes_both_keywords() {
    let mut g = grammar();
    let mut t = toks(&["if", "p", "then", "a", "else", "b"]);
    assert_eq!(parse(&mut g, &mut t), Ok(ter("if", atom("p"), atom("a"), atom("b"))));
    assert!(t.is_empty());
}

#[test]
fn mixfix_construct_tolerates_absent_keywords() {
    // Interfix consumption is best-effort: the same construct with the
    // keywords missing still parses, silently, to the same reduction.
    let mut g = grammar();
    let mut t = toks(&["if", "p", "a", "b"]);
    assert_eq!(parse(&mut g, &mut t), Ok(ter("if", atom("p"), atom("a"), atom("b"))));
    assert!(t.is_empty());
}

#[test]
fn mismatched_keyword_is_not_consumed() {
    // "fi" sits in interfix position but is not the expected "then", so it
    // is left in place, where it cannot start the next operand.
    let mut g = grammar();
    let mut t = toks(&["if", "p", "fi", "a", "else", "b"]);
    assert_eq!(parse(&mut g, &mut t), Err(PrattError::Misplaced("fi".to_string())));
}

#[test]
fn circumfix_form_consumes_its_closing_token() {
    let mut g = grammar();
    let mut t = toks(&["|", "a", "|"]);
    assert_eq!(parse(&mut g, &mut t), Ok(un("|", atom("a"))));
    assert!(t.is_empty());
}

#[test]
fn missing_closing_bracket_is_tolerated() {
    // Interfix consumption is best-effort for the closing token as well: at
    // the end of input there is nothing to consume, and the reduction still
    // happens.
    let mut g = grammar();
    let mut t = toks(&["|", "a"]);
    assert_eq!(parse(&mut g, &mut t), Ok(un("|", atom("a"))));
}

#[test]
fn malformed_descriptor_in_continuation_position() {
    // An infix operator with a single operand is no legal way to continue an
    // expression: the engine reports the offending token instead of reducing.
    let mut g = grammar();
    let mut t = toks(&["a", "&", "b"]);
    assert_eq!(parse(&mut g, &mut t), Err(PrattError::Misplaced("&".to_string())));
}

#[test]
fn empty_stream_is_exhaustion() {
    let mut g = grammar();
    let mut t = toks(&[]);
    assert_eq!(parse(&mut g, &mut t), Err(PrattError::Exhausted));
}

#[test]
fn infix_ternary_conditional() {
    let mut g = grammar();
    let mut t = toks(&["p", "?", "a", ":", "b"]);
    assert_eq!(parse(&mut g, &mut t), Ok(ter("?", atom("p"), atom("a"), atom("b"))));
}

#[test]
fn postfix_ternary_construct() {
    let mut g = grammar();
    let mut t = toks(&["a", "@", "b", ";", "c"]);
    assert_eq!(parse(&mut g, &mut t), Ok(ter("@", atom("a"), atom("b"), atom("c"))));
}

#[test]
fn unrecognized_token_failure_is_propagated() {
    let mut g = grammar();
    let mut t = toks(&["z"]);
    assert_eq!(parse(&mut g, &mut t), Err(PrattError::External("unrecognized token: z".to_string())));
}

#[test]
fn missing_operand_is_exhaustion() {
    let mut g = grammar();
    let mut t = toks(&["a", "+"]);
    assert_eq!(parse(&mut g, &mut t), Err(PrattError::Exhausted));
}

#[test]
fn infix_token_cannot_start_an_expression() {
    let mut g = grammar();
    let mut t = toks(&["+", "a"]);
    assert_eq!(parse(&mut g, &mut t), Err(PrattError::Misplaced("+".to_string())));
}

#[test]
fn interfix_token_cannot_start_an_expression() {
    let mut g = grammar();
    let mut t = toks(&["then", "a"]);
    assert_eq!(parse(&mut g, &mut t), Err(PrattError::Misplaced("then".to_string())));
}

#[test]
fn sub_expression_parse_respects_the_floor() {
    // With the floor already at the strength of "+", the loop may not absorb
    // it: the sub-expression is the bare atom and the rest is left intact.
    let mut g = grammar();
    let mut t = toks(&["a", "+", "b"]);
    assert_eq!(parse_until(&mut g, &mut t, Precedence(10)), Ok(atom("a")));
    assert_eq!(t.len(), 2);
}

#[test]
fn nested_mixfix_and_infix() {
    let mut g = grammar();
    let mut t = toks(&["if", "a", "+", "b", "then", "-", "a", "else", "b", "*", "c"]);
    assert_eq!(
        parse(&mut g, &mut t),
        Ok(ter(
            "if",
            bin("+", atom("a"), atom("b")),
            un("-", atom("a")),
            bin("*", atom("b"), atom("c")),
        ))
    );
}
