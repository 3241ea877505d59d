//! What holds of every scan, proved from the grammar.
use crate::classify::{is_number_part, is_space, is_word_part, is_word_start};
use crate::grammar::{
    is_not, lemma_run_len, lemma_scan_advances, lex, operator, run_len, scan, space_run, symbol,
    Lexed, ScanError,
};
use crate::number::is_number_literal;
use crate::token::{keyword, TokenView};
use vstd::prelude::*;

verus! {

/// Whether `s` holds white space only.
pub open spec fn is_blank(s: Seq<char>) -> bool {
    forall|i: int| 0 <= i < s.len() ==> is_space(#[trigger] s[i])
}

/// Where `eof` stands among the tokens of a scan: last if the scan was not
/// stopped by an error, and nowhere else.
pub open spec fn eof_only_last(lexed: Lexed) -> bool {
    &&& lexed.error is None ==> lexed.tokens.len() > 0
    &&& forall|i: int|
        0 <= i < lexed.tokens.len() ==> (#[trigger] lexed.tokens[i] == TokenView::Eof <==> (
        lexed.error is None && i == lexed.tokens.len() - 1))
}

/// A run over a text whose characters are all in the class is the whole text.
pub proof fn lemma_run_len_all(s: Seq<char>, class: spec_fn(char) -> bool)
    requires
        forall|i: int| 0 <= i < s.len() ==> class(#[trigger] s[i]),
    ensures
        run_len(s, class) == s.len(),
    decreases s.len(),
{
    if s.len() > 0 {
        let t = s.skip(1);
        assert forall|i: int| 0 <= i < t.len() implies class(#[trigger] t[i]) by {
            assert(t[i] == s[i + 1]);
        }
        lemma_run_len_all(t, class);
    }
}

/// A text of white space only yields exactly one token, the end of input.
pub proof fn lemma_blank_yields_eof(s: Seq<char>)
    requires
        is_blank(s),
    ensures
        lex(s).tokens == seq![TokenView::Eof],
        lex(s).error is None,
{
    lemma_run_len_all(s, |c: char| is_space(c));
}

/// A text that is one single-character symbol yields that symbol's token
/// and then the end of input.
pub proof fn lemma_single_symbol(c: char)
    requires
        symbol(c) is Some,
    ensures
        lex(seq![c]).tokens == seq![symbol(c)->0, TokenView::Eof],
        lex(seq![c]).error is None,
{
    let s = seq![c];
    assert(run_len(s.skip(1), |c: char| is_space(c)) == 0);
    assert(space_run(s) == 0);
    assert(s.skip(0) =~= s);
    assert(scan(s).token == Ok::<TokenView, ScanError>(symbol(c)->0));
    assert(scan(s).rest.len() == 0);
    assert(scan(s).rest =~= Seq::<char>::empty());
    lemma_blank_yields_eof(Seq::<char>::empty());
    assert(seq![symbol(c)->0] + seq![TokenView::Eof] =~= seq![symbol(c)->0, TokenView::Eof]);
}

/// A text that is one operator yields the operator's own token and then the
/// end of input; with `=` after it, it yields the token of the two together.
pub proof fn lemma_single_operator(c: char)
    requires
        operator(c) is Some,
    ensures
        lex(seq![c]).tokens == seq![operator(c)->0.alone, TokenView::Eof],
        lex(seq![c]).error is None,
        lex(seq![c, '=']).tokens == seq![operator(c)->0.with_equal, TokenView::Eof],
        lex(seq![c, '=']).error is None,
{
    lemma_blank_yields_eof(Seq::<char>::empty());
    let one = seq![c];
    assert(space_run(one) == 0);
    assert(one.skip(0) =~= one);
    assert(scan(one).token == Ok::<TokenView, ScanError>(operator(c)->0.alone));
    assert(scan(one).rest =~= Seq::<char>::empty());
    assert(seq![operator(c)->0.alone] + seq![TokenView::Eof] =~= seq![
        operator(c)->0.alone,
        TokenView::Eof,
    ]);
    let two = seq![c, '='];
    assert(space_run(two) == 0);
    assert(two.skip(0) =~= two);
    assert(two.skip(1)[0] == '=');
    assert(scan(two).token == Ok::<TokenView, ScanError>(operator(c)->0.with_equal));
    assert(scan(two).rest =~= Seq::<char>::empty());
    assert(seq![operator(c)->0.with_equal] + seq![TokenView::Eof] =~= seq![
        operator(c)->0.with_equal,
        TokenView::Eof,
    ]);
}

/// The end-of-input token is the last token of every scan that no error
/// stopped, and stands nowhere else in any scan.
pub proof fn lemma_eof_only_last(s: Seq<char>)
    ensures
        eof_only_last(lex(s)),
    decreases s.len(),
{
    let step = scan(s);
    lemma_scan_advances(s);
    match step.token {
        Err(e) => {},
        Ok(TokenView::Eof) => {},
        Ok(t) => {
            lemma_eof_only_last(step.rest);
            let more = lex(step.rest);
            let all = lex(s);
            assert(all.tokens == seq![t] + more.tokens);
            assert forall|i: int| 0 <= i < all.tokens.len() implies (#[trigger] all.tokens[i]
                == TokenView::Eof <==> (all.error is None && i == all.tokens.len() - 1)) by {
                if i > 0 {
                    assert(all.tokens[i] == more.tokens[i - 1]);
                }
            }
        },
    }
}

/// What holds of a token that a scan yields. A number is a number
/// literal. An identifier is a word that is not reserved. A comment holds
/// no line feed. No scan yields a string.
pub open spec fn is_scanned(t: TokenView) -> bool {
    match t {
        TokenView::Number(text) => is_number_literal(text),
        TokenView::Identifier(word) => {
            &&& word.len() > 0
            &&& is_word_start(word[0])
            &&& forall|i: int| 0 <= i < word.len() ==> is_word_part(#[trigger] word[i])
            &&& keyword(word) is None
        },
        TokenView::Comment(text) => forall|i: int|
            0 <= i < text.len() ==> #[trigger] text[i] != '\n',
        TokenView::String(_) => false,
        _ => true,
    }
}

/// The token of a scan step has the form that `is_scanned` describes.
pub proof fn lemma_scan_token_form(s: Seq<char>)
    ensures
        scan(s).token matches Ok(t) ==> is_scanned(t),
{
    let t = s.skip(space_run(s) as int);
    if t.len() > 0 {
        let c = t[0];
        let after = t.skip(1);
        lemma_run_len(after, |c: char| is_number_part(c));
        lemma_run_len(after, |c: char| is_word_part(c));
        if after.len() > 0 {
            lemma_run_len(after.skip(1), is_not('\n'));
        }
        if let Ok(TokenView::Identifier(word)) = scan(s).token {
            assert forall|i: int| 0 <= i < word.len() implies is_word_part(#[trigger] word[i]) by {
                if i > 0 {
                    assert(word[i] == after[i - 1]);
                }
            }
        }
    }
}

/// Every token of a scan has the form that `is_scanned` describes.
pub proof fn lemma_lex_token_form(s: Seq<char>)
    ensures
        forall|i: int| 0 <= i < lex(s).tokens.len() ==> is_scanned(#[trigger] lex(s).tokens[i]),
    decreases s.len(),
{
    let step = scan(s);
    lemma_scan_advances(s);
    lemma_scan_token_form(s);
    match step.token {
        Err(e) => {},
        Ok(TokenView::Eof) => {},
        Ok(t) => {
            lemma_lex_token_form(step.rest);
            let more = lex(step.rest);
            let all = lex(s);
            assert(all.tokens == seq![t] + more.tokens);
            assert forall|i: int| 0 <= i < all.tokens.len() implies is_scanned(
                #[trigger] all.tokens[i],
            ) by {
                if i > 0 {
                    assert(all.tokens[i] == more.tokens[i - 1]);
                }
            }
        },
    }
}

} // verus!
