//! A forward-only, single-lookahead token cursor. It is advanced strictly
//! forward — one token of lookahead, never rewound — and end-of-stream is
//! observable without consuming a token.

use vstd::prelude::*;

verus! {

/// `post` is what remains of `pre` after consuming zero or more tokens from
/// the front.
pub open spec fn is_suffix_of<T>(post: Seq<T>, pre: Seq<T>) -> bool {
    &&& post.len() <= pre.len()
    &&& post == pre.skip(pre.len() - post.len())
}

/// Every sequence is a suffix of itself: consuming nothing is allowed.
pub proof fn lemma_suffix_refl<T>(s: Seq<T>)
    ensures
        is_suffix_of(s, s),
{
    assert(s.skip(0) =~= s);
}

/// Suffixes compose: what remains after two rounds of consumption is a
/// suffix of the stream both started from.
pub proof fn lemma_suffix_trans<T>(c: Seq<T>, b: Seq<T>, a: Seq<T>)
    requires
        is_suffix_of(c, b),
        is_suffix_of(b, a),
    ensures
        is_suffix_of(c, a),
{
    assert(a.skip(a.len() - b.len()).skip(b.len() - c.len()) =~= a.skip(a.len() - c.len()));
}

/// The token cursor: a queue of the tokens not yet consumed, viewed as a
/// sequence whose first element is the next token.
pub struct Tokens<T> {
    items: Vec<T>,
}

impl<T> View for Tokens<T> {
    type V = Seq<T>;

    closed spec fn view(&self) -> Seq<T> {
        self.items@
    }
}

impl<T> Tokens<T> {
    /// A cursor over the given tokens, in order.
    pub fn new(items: Vec<T>) -> (r: Tokens<T>)
        ensures
            r@ == items@,
    {
        Tokens { items }
    }

    /// How many tokens remain.
    pub fn len(&self) -> (n: usize)
        ensures
            n == self@.len(),
    {
        self.items.len()
    }

    /// Whether the stream is exhausted.
    pub fn is_empty(&self) -> (r: bool)
        ensures
            r == (self@.len() == 0),
    {
        self.items.len() == 0
    }

    /// The next token, without consuming it.
    pub fn peek(&self) -> (r: &T)
        requires
            self@.len() > 0,
        ensures
            *r == self@[0],
    {
        &self.items[0]
    }

    /// Consume and return the next token.
    pub fn next(&mut self) -> (r: T)
        requires
            old(self)@.len() > 0,
        ensures
            r == old(self)@[0],
            final(self)@ == old(self)@.skip(1),
    {
        let r = self.items.remove(0);
        proof {
            assert(self.items@ =~= old(self)@.skip(1));
        }
        r
    }
}

} // verus!
