//! The lexical grammar, as mathematics over the unconsumed input.
//!
//! `scan` says which token starts a text and what is left after it; `lex`
//! says which tokens a whole text yields. The executable scanner is proved
//! against these.
use crate::classify::{is_digit, is_number_part, is_space, is_word_part, is_word_start};
use crate::cursor::{head, tail};
use crate::number::is_number_literal;
use crate::token::{keyword, TokenView};
use vstd::prelude::*;

verus! {

/// Why a scan stopped before the end of the input.
#[derive(Clone, Copy, Debug, PartialEq, Eq, Structural)]
pub enum ScanError {
    /// The digits and points that were read are no number: there is more
    /// than one point, or a digit that is no ASCII decimal digit.
    MalformedNumber,
    /// The input ended inside a string literal.
    UnterminatedString,
}

/// The length of the longest prefix of `s` whose characters are all in
/// `class`.
pub open spec fn run_len(s: Seq<char>, class: spec_fn(char) -> bool) -> nat
    decreases s.len(),
{
    if s.len() > 0 && class(s[0]) {
        1 + run_len(s.skip(1), class)
    } else {
        0
    }
}

/// How many characters of white space `s` starts with.
pub open spec fn space_run(s: Seq<char>) -> nat {
    run_len(s, |c: char| is_space(c))
}

/// How many digits and points `s` starts with.
pub open spec fn number_run(s: Seq<char>) -> nat {
    run_len(s, |c: char| is_number_part(c))
}

/// How many word characters `s` starts with.
pub open spec fn word_run(s: Seq<char>) -> nat {
    run_len(s, |c: char| is_word_part(c))
}

/// The class of all characters but `stop`.
pub open spec fn is_not(stop: char) -> spec_fn(char) -> bool {
    |c: char| c != stop
}

/// How many characters of `s` come before the first `stop`.
pub open spec fn len_before(s: Seq<char>, stop: char) -> nat {
    run_len(s, is_not(stop))
}

/// How many characters of `s` come before its first line feed.
pub open spec fn line_len(s: Seq<char>) -> nat {
    len_before(s, '\n')
}

/// The token of a symbol that is always a single character.
pub open spec fn symbol(c: char) -> Option<TokenView> {
    if c == '(' {
        Some(TokenView::LeftParen)
    } else if c == ')' {
        Some(TokenView::RightParen)
    } else if c == '{' {
        Some(TokenView::LeftBrace)
    } else if c == '}' {
        Some(TokenView::RightBrace)
    } else if c == ',' {
        Some(TokenView::Comma)
    } else if c == '.' {
        Some(TokenView::Dot)
    } else if c == '-' {
        Some(TokenView::Minus)
    } else if c == '+' {
        Some(TokenView::Plus)
    } else if c == ';' {
        Some(TokenView::Semicolon)
    } else if c == '*' {
        Some(TokenView::Star)
    } else {
        None
    }
}

/// The two tokens of an operator that `=` may follow.
pub struct Operator {
    /// The token where no `=` follows.
    pub alone: TokenView,
    /// The token of the operator together with the `=`.
    pub with_equal: TokenView,
}

/// The operators that `=` may follow.
pub open spec fn operator(c: char) -> Option<Operator> {
    if c == '!' {
        Some(Operator { alone: TokenView::Bang, with_equal: TokenView::BangEqual })
    } else if c == '=' {
        Some(Operator { alone: TokenView::Equal, with_equal: TokenView::EqualEqual })
    } else if c == '>' {
        Some(Operator { alone: TokenView::Greater, with_equal: TokenView::GreaterEqual })
    } else if c == '<' {
        Some(Operator { alone: TokenView::Less, with_equal: TokenView::LessEqual })
    } else {
        None
    }
}

/// The outcome of one scan step: the token, or the error, and the input
/// that is left.
pub struct Scan {
    pub token: Result<TokenView, ScanError>,
    pub rest: Seq<char>,
}

/// The scan step on a text whose first character `c` has been consumed and
/// is no white space; `after` is what follows `c`.
pub open spec fn scan_at(c: char, after: Seq<char>) -> Scan {
    if symbol(c) is Some {
        Scan { token: Ok(symbol(c)->0), rest: after }
    } else if c == '/' {
        if head(after) == Some('/') {
            let body = after.skip(1);
            let n = line_len(body) as int;
            Scan { token: Ok(TokenView::Comment(body.take(n))), rest: tail(body.skip(n)) }
        } else {
            Scan { token: Ok(TokenView::Slash), rest: after }
        }
    } else if operator(c) is Some {
        if head(after) == Some('=') {
            Scan { token: Ok(operator(c)->0.with_equal), rest: after.skip(1) }
        } else {
            Scan { token: Ok(operator(c)->0.alone), rest: after }
        }
    } else if is_digit(c) {
        let n = number_run(after) as int;
        let text = seq![c] + after.take(n);
        Scan {
            token: if is_number_literal(text) {
                Ok(TokenView::Number(text))
            } else {
                Err(ScanError::MalformedNumber)
            },
            rest: after.skip(n),
        }
    } else if is_word_start(c) {
        let n = word_run(after) as int;
        let word = seq![c] + after.take(n);
        Scan {
            token: Ok(
                match keyword(word) {
                    Some(reserved) => reserved,
                    None => TokenView::Identifier(word),
                },
            ),
            rest: after.skip(n),
        }
    } else {
        Scan { token: Ok(TokenView::Eof), rest: after }
    }
}

/// One scan step on `s`: white space is skipped; at the end of the text the
/// token is the end of input; else the first character decides.
pub open spec fn scan(s: Seq<char>) -> Scan {
    let t = s.skip(space_run(s) as int);
    if t.len() == 0 {
        Scan { token: Ok(TokenView::Eof), rest: t }
    } else {
        scan_at(t[0], t.skip(1))
    }
}

/// What a whole scan yields: the tokens, and the error that stopped it if
/// one did.
pub struct Lexed {
    pub tokens: Seq<TokenView>,
    pub error: Option<ScanError>,
}

/// The scan of a whole text: scan steps are repeated until one yields the
/// end of input, which is the last token, or fails, which ends the scan
/// without an end-of-input token.
pub open spec fn lex(s: Seq<char>) -> Lexed
    decreases s.len(),
    via lex_decreases
{
    let step = scan(s);
    match step.token {
        Err(e) => Lexed { tokens: seq![], error: Some(e) },
        Ok(TokenView::Eof) => Lexed { tokens: seq![TokenView::Eof], error: None },
        Ok(t) => {
            let more = lex(step.rest);
            Lexed { tokens: seq![t] + more.tokens, error: more.error }
        },
    }
}

#[via_fn]
proof fn lex_decreases(s: Seq<char>) {
    lemma_scan_advances(s);
}

/// A run is a prefix: every character in it is in the class, and the
/// character after it, if there is one, is not.
pub proof fn lemma_run_len(s: Seq<char>, class: spec_fn(char) -> bool)
    ensures
        run_len(s, class) <= s.len(),
        forall|i: int| 0 <= i < run_len(s, class) ==> class(#[trigger] s[i]),
        run_len(s, class) < s.len() ==> !class(s[run_len(s, class) as int]),
    decreases s.len(),
{
    if s.len() > 0 && class(s[0]) {
        let t = s.skip(1);
        lemma_run_len(t, class);
        assert forall|i: int| 0 <= i < run_len(s, class) implies class(#[trigger] s[i]) by {
            if i > 0 {
                assert(s[i] == t[i - 1]);
            }
        }
        if run_len(s, class) < s.len() {
            assert(s[run_len(s, class) as int] == t[run_len(t, class) as int]);
        }
    }
}

/// A scan step consumes a prefix of the input and leaves the rest as it
/// was: the cursor never moves backwards. It consumes at least one
/// character unless the token is the end of input.
pub proof fn lemma_scan_advances(s: Seq<char>)
    ensures
        scan(s).rest.len() <= s.len(),
        scan(s).rest == s.skip(s.len() - scan(s).rest.len()),
        scan(s).token != Ok::<TokenView, ScanError>(TokenView::Eof) ==> scan(s).rest.len()
            < s.len(),
{
    lemma_run_len(s, |c: char| is_space(c));
    let t = s.skip(space_run(s) as int);
    let rest = scan(s).rest;
    if t.len() > 0 {
        let after = t.skip(1);
        lemma_run_len(after, |c: char| is_number_part(c));
        lemma_run_len(after, |c: char| is_word_part(c));
        if after.len() > 0 {
            lemma_run_len(after.skip(1), is_not('\n'));
        }
        assert(rest =~= t.skip(t.len() - rest.len()));
    }
    assert(rest =~= s.skip(s.len() - rest.len()));
}

} // verus!
