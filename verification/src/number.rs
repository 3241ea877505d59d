//! Number literals: one or more decimal digits, with at most one point
//! among or after them (`7`, `3.14`, `12.`).
use crate::classify::is_ascii_digit;
use vstd::prelude::*;

verus! {

/// Whether `s` holds a point.
pub open spec fn has_point(s: Seq<char>) -> bool {
    exists|i: int| 0 <= i < s.len() && s[i] == '.'
}

/// Whether `s` can be continued to a number literal: it is empty, or it
/// starts with an ASCII digit, holds only ASCII digits and points, and holds
/// at most one point.
pub open spec fn is_number_prefix(s: Seq<char>) -> bool {
    &&& s.len() > 0 ==> is_ascii_digit(s[0])
    &&& forall|i: int| 0 <= i < s.len() ==> is_ascii_digit(#[trigger] s[i]) || s[i] == '.'
    &&& forall|i: int, j: int|
        0 <= i < j < s.len() && #[trigger] s[i] == '.' ==> #[trigger] s[j] != '.'
}

/// Whether `s` is a number literal.
pub open spec fn is_number_literal(s: Seq<char>) -> bool {
    s.len() > 0 && is_number_prefix(s)
}

/// How one more character continues the start of a number literal.
pub proof fn lemma_number_prefix_push(s: Seq<char>, c: char)
    ensures
        has_point(s.push(c)) == (has_point(s) || c == '.'),
        is_number_prefix(s.push(c)) == (is_number_prefix(s) && (is_ascii_digit(c) || (c == '.'
            && s.len() > 0 && !has_point(s)))),
{
    let t = s.push(c);
    if has_point(s) {
        let i = choose|i: int| 0 <= i < s.len() && s[i] == '.';
        assert(t[i] == '.');
    }
    if c == '.' {
        assert(t[s.len() as int] == '.');
    }
    if has_point(t) && c != '.' {
        let i = choose|i: int| 0 <= i < t.len() && t[i] == '.';
        assert(s[i] == '.');
    }
    if is_number_prefix(t) {
        assert(is_ascii_digit(t[s.len() as int]) || t[s.len() as int] == '.');
        assert forall|i: int| 0 <= i < s.len() implies is_ascii_digit(#[trigger] s[i]) || s[i]
            == '.' by {
            assert(s[i] == t[i]);
        }
        assert forall|i: int, j: int|
            0 <= i < j < s.len() && #[trigger] s[i] == '.' implies #[trigger] s[j] != '.' by {
            assert(t[i] == '.');
            assert(t[j] == s[j]);
        }
        if s.len() > 0 {
            assert(s[0] == t[0]);
        }
        if c == '.' {
            assert(t[0] != '.');
            if has_point(s) {
                let i = choose|i: int| 0 <= i < s.len() && s[i] == '.';
                assert(t[i] == '.');
                assert(t[s.len() as int] == '.');
            }
        }
    }
    if is_number_prefix(s) && (is_ascii_digit(c) || (c == '.' && s.len() > 0 && !has_point(s))) {
        assert forall|i: int| 0 <= i < t.len() implies is_ascii_digit(#[trigger] t[i]) || t[i]
            == '.' by {
            if i < s.len() {
                assert(t[i] == s[i]);
            }
        }
        assert forall|i: int, j: int|
            0 <= i < j < t.len() && #[trigger] t[i] == '.' implies #[trigger] t[j] != '.' by {
            assert(t[i] == s[i]);
            if j < s.len() {
                assert(t[j] == s[j]);
            }
        }
    }
}

/// Whether `text` is a number literal.
pub fn is_number(text: &str) -> (b: bool)
    ensures
        b == is_number_literal(text@),
{
    let mut well = true;
    let mut empty = true;
    let mut point = false;
    for c in it: text.chars()
        invariant
            it.seq() == text@,
            empty == (it.index() == 0),
            well == is_number_prefix(text@.take(it.index() as int)),
            well ==> point == has_point(text@.take(it.index() as int)),
    {
        proof {
            let read = text@.take(it.index() as int);
            lemma_number_prefix_push(read, c);
            assert(read.push(c) =~= text@.take(it.index() + 1));
        }
        let digit = '0' <= c && c <= '9';
        if !digit {
            if c == '.' && !empty && !point {
                point = true;
            } else {
                well = false;
            }
        }
        empty = false;
    }
    proof {
        assert(text@.take(text@.len() as int) =~= text@);
    }
    well && !empty
}

} // verus!
