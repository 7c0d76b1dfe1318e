//! Texts as sequences of characters, and the order that position tokens use.

use vstd::prelude::*;
use vstd::std_specs::iter::IteratorSpec;

verus! {

/// Code-point order on texts: `a` is `b` or sorts in front of it.
///
/// The first character in which the two differ decides; a text sorts in
/// front of every text that it is a proper prefix of.
pub open spec fn lex_le(a: Seq<char>, b: Seq<char>) -> bool
    decreases a.len(),
{
    if a.len() == 0 {
        true
    } else if b.len() == 0 {
        false
    } else if a.first() == b.first() {
        lex_le(a.drop_first(), b.drop_first())
    } else {
        (a.first() as u32) < (b.first() as u32)
    }
}

/// Different characters have different code points.
pub proof fn lemma_code_points_differ(x: char, y: char)
    requires
        x != y,
    ensures
        x as u32 != y as u32,
{
}

/// Every text is in order with itself.
pub proof fn lemma_lex_le_reflexive(a: Seq<char>)
    ensures
        lex_le(a, a),
    decreases a.len(),
{
    if a.len() > 0 {
        lemma_lex_le_reflexive(a.drop_first());
    }
}

/// Of two texts, one is in order with the other.
pub proof fn lemma_lex_le_total(a: Seq<char>, b: Seq<char>)
    ensures
        lex_le(a, b) || lex_le(b, a),
    decreases a.len(),
{
    if a.len() > 0 && b.len() > 0 {
        if a.first() == b.first() {
            lemma_lex_le_total(a.drop_first(), b.drop_first());
        } else {
            lemma_code_points_differ(a.first(), b.first());
        }
    }
}

/// The order carries over a text in the middle.
pub proof fn lemma_lex_le_transitive(a: Seq<char>, b: Seq<char>, c: Seq<char>)
    requires
        lex_le(a, b),
        lex_le(b, c),
    ensures
        lex_le(a, c),
    decreases a.len(),
{
    if a.len() > 0 && b.len() > 0 && c.len() > 0 {
        if a.first() == b.first() && b.first() == c.first() {
            lemma_lex_le_transitive(a.drop_first(), b.drop_first(), c.drop_first());
        }
    }
}

/// Two texts that are in order both ways are the same text.
pub proof fn lemma_lex_le_antisymmetric(a: Seq<char>, b: Seq<char>)
    requires
        lex_le(a, b),
        lex_le(b, a),
    ensures
        a == b,
    decreases a.len(),
{
    if a.len() > 0 && b.len() > 0 {
        if a.first() != b.first() {
            lemma_code_points_differ(a.first(), b.first());
        }
        lemma_lex_le_antisymmetric(a.drop_first(), b.drop_first());
        assert(a =~= seq![a.first()] + a.drop_first());
    }
}

/// Decides the code-point order of two texts.
pub fn text_le(a: &str, b: &str) -> (le: bool)
    ensures
        le == lex_le(a@, b@),
{
    let mut rest_a = a.chars();
    let mut rest_b = b.chars();
    let ghost mut seen: int = 0;
    loop
        invariant
            0 <= seen <= a@.len(),
            rest_a.remaining() == a@.skip(seen),
            lex_le(a@, b@) == lex_le(rest_a.remaining(), rest_b.remaining()),
        decreases a@.len() - seen,
    {
        match rest_a.next() {
            None => {
                return true;
            },
            Some(in_a) => {
                match rest_b.next() {
                    None => {
                        return false;
                    },
                    Some(in_b) => {
                        if in_a != in_b {
                            return (in_a as u32) < (in_b as u32);
                        }
                        proof {
                            seen = seen + 1;
                        }
                    },
                }
            },
        }
    }
}

/// Decides whether two texts are the same sequence of characters.
pub fn text_eq(a: &str, b: &str) -> (eq: bool)
    ensures
        eq == (a@ == b@),
{
    let mut rest_a = a.chars();
    let mut rest_b = b.chars();
    let ghost mut seen: int = 0;
    loop
        invariant
            0 <= seen <= a@.len(),
            seen <= b@.len(),
            rest_a.remaining() == a@.skip(seen),
            rest_b.remaining() == b@.skip(seen),
            a@.take(seen) == b@.take(seen),
        decreases a@.len() - seen,
    {
        let in_a = rest_a.next();
        let in_b = rest_b.next();
        match (in_a, in_b) {
            (None, None) => {
                proof {
                    assert(a@ =~= a@.take(seen));
                    assert(b@ =~= b@.take(seen));
                }
                return true;
            },
            (Some(x), Some(y)) => {
                if x != y {
                    return false;
                }
                proof {
                    seen = seen + 1;
                }
            },
            _ => {
                return false;
            },
        }
    }
}

} // verus!
