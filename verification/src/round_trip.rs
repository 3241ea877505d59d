//! Writing tokens out and scanning them again.
//!
//! Symbols and reserved words survive the trip: written one after another,
//! each behind a space, they scan back to themselves.
use crate::classify::{is_space, is_word_part};
use crate::grammar::{lex, run_len, scan, scan_at, space_run, word_run, Scan, ScanError};
use crate::token::{keyword, render, TokenView};
use vstd::prelude::*;

verus! {

/// Whether `t` is a reserved word.
pub open spec fn is_reserved(t: TokenView) -> bool {
    match t {
        TokenView::And
        | TokenView::Class
        | TokenView::Else
        | TokenView::False
        | TokenView::Fun
        | TokenView::For
        | TokenView::If
        | TokenView::Nil
        | TokenView::Or
        | TokenView::Print
        | TokenView::Return
        | TokenView::Super
        | TokenView::This
        | TokenView::True
        | TokenView::Var
        | TokenView::While => true,
        _ => false,
    }
}

/// Whether `t` is a symbol or a reserved word: a token without a payload
/// that is not the end of input.
pub open spec fn is_simple(t: TokenView) -> bool {
    match t {
        TokenView::Identifier(_)
        | TokenView::String(_)
        | TokenView::Number(_)
        | TokenView::Comment(_)
        | TokenView::Eof => false,
        _ => true,
    }
}

/// Whether every token of `ts` is simple.
pub open spec fn all_simple(ts: Seq<TokenView>) -> bool {
    forall|i: int| 0 <= i < ts.len() ==> is_simple(#[trigger] ts[i])
}

/// The tokens of `ts` written one after another, a space before each.
pub open spec fn render_spaced(ts: Seq<TokenView>) -> Seq<char>
    decreases ts.len(),
{
    if ts.len() == 0 {
        Seq::<char>::empty()
    } else {
        seq![' '] + render(ts[0]) + render_spaced(ts.skip(1))
    }
}

/// Whether `s` holds lower-case ASCII letters only.
pub open spec fn is_lower_case(s: Seq<char>) -> bool {
    forall|i: int| 0 <= i < s.len() ==> 'a' <= #[trigger] s[i] <= 'z'
}

/// Whether `s` is empty or starts with a space.
pub open spec fn starts_apart(s: Seq<char>) -> bool {
    s.len() == 0 || s[0] == ' '
}

/// A run over `w + rest` ends where `w` ends, if `w` is in the class
/// throughout and `rest` does not go on in it.
pub proof fn lemma_run_len_prefix(w: Seq<char>, rest: Seq<char>, class: spec_fn(char) -> bool)
    requires
        forall|i: int| 0 <= i < w.len() ==> class(#[trigger] w[i]),
        rest.len() == 0 || !class(rest[0]),
    ensures
        run_len(w + rest, class) == w.len(),
    decreases w.len(),
{
    if w.len() > 0 {
        let v = w.skip(1);
        assert forall|i: int| 0 <= i < v.len() implies class(#[trigger] v[i]) by {
            assert(v[i] == w[i + 1]);
        }
        lemma_run_len_prefix(v, rest, class);
        assert((w + rest).skip(1) =~= v + rest);
        assert((w + rest)[0] == w[0]);
    } else {
        assert(w + rest =~= rest);
    }
}

/// Each reserved word is written in lower-case letters and spells itself.
pub proof fn lemma_reserved_words(t: TokenView)
    requires
        is_reserved(t),
    ensures
        render(t).len() > 0,
        is_lower_case(render(t)),
        keyword(render(t)) == Some(t),
{
    reveal_strlit("and");
    reveal_strlit("class");
    reveal_strlit("else");
    reveal_strlit("false");
    reveal_strlit("fun");
    reveal_strlit("for");
    reveal_strlit("if");
    reveal_strlit("nil");
    reveal_strlit("or");
    reveal_strlit("print");
    reveal_strlit("return");
    reveal_strlit("super");
    reveal_strlit("this");
    reveal_strlit("true");
    reveal_strlit("var");
    reveal_strlit("while");
    // Words of different lengths differ; each pair of one length differs in
    // the letter named here.
    assert("fun"@[1] != "for"@[1]);
    assert("this"@[1] != "true"@[1]);
    assert("else"@[0] != "this"@[0]);
    assert("else"@[0] != "true"@[0]);
    assert("false"@[0] != "print"@[0]);
    assert("false"@[0] != "super"@[0]);
    assert("false"@[0] != "while"@[0]);
    assert("class"@[0] != "false"@[0]);
    assert("class"@[0] != "print"@[0]);
    assert("class"@[0] != "super"@[0]);
    assert("class"@[0] != "while"@[0]);
    assert("print"@[0] != "super"@[0]);
    assert("print"@[0] != "while"@[0]);
    assert("super"@[0] != "while"@[0]);
    assert("and"@[0] != "fun"@[0]);
    assert("and"@[0] != "for"@[0]);
    assert("and"@[0] != "nil"@[0]);
    assert("and"@[0] != "var"@[0]);
    assert("fun"@[0] != "nil"@[0]);
    assert("fun"@[0] != "var"@[0]);
    assert("for"@[0] != "nil"@[0]);
    assert("for"@[0] != "var"@[0]);
    assert("nil"@[0] != "var"@[0]);
    assert("if"@[0] != "or"@[0]);
}

/// The scan step on a space and then a text that starts with no white space
/// is decided by that text's first character.
pub proof fn lemma_scan_behind_space(u: Seq<char>)
    requires
        u.len() > 0,
        !is_space(u[0]),
    ensures
        scan(seq![' '] + u) == scan_at(u[0], u.skip(1)),
{
    let s = seq![' '] + u;
    assert(s.skip(1) =~= u);
    assert(s[0] == ' ');
    assert(run_len(u, |c: char| is_space(c)) == 0);
    assert(space_run(s) == 1);
}

/// A word in lower-case letters, behind a space and with the rest apart
/// from it, scans as the reserved word it spells, or else as an identifier.
pub proof fn lemma_scan_word(w: Seq<char>, rest: Seq<char>)
    requires
        w.len() > 0,
        is_lower_case(w),
        starts_apart(rest),
    ensures
        scan(seq![' '] + w + rest) == (Scan {
            token: Ok(
                match keyword(w) {
                    Some(reserved) => reserved,
                    None => TokenView::Identifier(w),
                },
            ),
            rest: rest,
        }),
{
    let u = w + rest;
    assert(u[0] == w[0]);
    assert(seq![' '] + w + rest =~= seq![' '] + u);
    lemma_scan_behind_space(u);
    let after = u.skip(1);
    let v = w.skip(1);
    assert(after =~= v + rest);
    assert forall|i: int| 0 <= i < v.len() implies is_word_part(#[trigger] v[i]) by {
        assert(v[i] == w[i + 1]);
    }
    lemma_run_len_prefix(v, rest, |c: char| is_word_part(c));
    assert(word_run(after) == v.len());
    assert(seq![w[0]] + after.take(v.len() as int) =~= w);
    assert(after.skip(v.len() as int) =~= rest);
}

/// A symbol or reserved word, written behind a space and with the rest
/// apart from it, scans as itself and leaves the rest.
pub proof fn lemma_scan_rendered(t: TokenView, rest: Seq<char>)
    requires
        is_simple(t),
        starts_apart(rest),
    ensures
        scan(seq![' '] + render(t) + rest) == (Scan { token: Ok(t), rest: rest }),
{
    if is_reserved(t) {
        lemma_reserved_words(t);
        lemma_scan_word(render(t), rest);
    } else {
        reveal_strlit("(");
        reveal_strlit(")");
        reveal_strlit("{");
        reveal_strlit("}");
        reveal_strlit(",");
        reveal_strlit(".");
        reveal_strlit("-");
        reveal_strlit("+");
        reveal_strlit(";");
        reveal_strlit("/");
        reveal_strlit("*");
        reveal_strlit("!");
        reveal_strlit("!=");
        reveal_strlit("=");
        reveal_strlit("==");
        reveal_strlit(">");
        reveal_strlit(">=");
        reveal_strlit("<");
        reveal_strlit("<=");
        let w = render(t);
        let u = w + rest;
        assert(u[0] == w[0]);
        assert(seq![' '] + w + rest =~= seq![' '] + u);
        lemma_scan_behind_space(u);
        let after = u.skip(1);
        if w.len() == 1 {
            assert(after =~= rest);
        } else {
            assert(after[0] == w[1]);
            assert(after.skip(1) =~= rest);
        }
    }
}

/// Symbols and reserved words, written one after another with a space
/// before each, scan back to the same tokens, followed by the end of input.
pub proof fn lemma_render_round_trip(ts: Seq<TokenView>)
    requires
        all_simple(ts),
    ensures
        lex(render_spaced(ts)).tokens == ts.push(TokenView::Eof),
        lex(render_spaced(ts)).error is None,
    decreases ts.len(),
{
    if ts.len() == 0 {
        let s = render_spaced(ts);
        assert(space_run(s) == 0);
        assert(scan(s).token == Ok::<TokenView, ScanError>(TokenView::Eof));
        assert(lex(s).tokens =~= ts.push(TokenView::Eof));
    } else {
        let t = ts[0];
        let more = ts.skip(1);
        let rest = render_spaced(more);
        assert(all_simple(more)) by {
            assert forall|i: int| 0 <= i < more.len() implies is_simple(#[trigger] more[i]) by {
                assert(more[i] == ts[i + 1]);
            }
        }
        lemma_render_round_trip(more);
        assert(starts_apart(rest));
        lemma_scan_rendered(t, rest);
        assert(seq![t] + more.push(TokenView::Eof) =~= ts.push(TokenView::Eof));
    }
}

} // verus!
