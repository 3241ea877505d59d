//! The scanner: from source text to tokens.
use crate::cursor::{head, tail, Cursor};
use crate::grammar::{
    lemma_scan_advances, len_before, lex, line_len, number_run, scan, space_run, symbol, word_run,
    Lexed,
};
pub use crate::grammar::ScanError;
use crate::laws::{
    eof_only_last, is_blank, lemma_blank_yields_eof, lemma_eof_only_last, lemma_single_symbol,
};
use crate::number::{is_number, is_number_literal};
pub use crate::token::Token;
use crate::token::{match_keyword, views, TokenView};
use vstd::prelude::*;

verus! {

/// The view of a scan step's outcome.
pub open spec fn view_result(r: Result<Token, ScanError>) -> Result<TokenView, ScanError> {
    match r {
        Ok(t) => Ok(t@),
        Err(e) => Err(e),
    }
}

/// Consumes the white space that the input starts with.
pub fn eat_whitespace(src: &mut Cursor)
    ensures
        final(src)@ == old(src)@.skip(space_run(old(src)@) as int),
{
    let ghost start = src@;
    let ghost mut done: int = 0;
    loop
        invariant
            0 <= done <= start.len(),
            src@ == start.skip(done),
            space_run(start) == done + space_run(src@),
        ensures
            src@ == start.skip(space_run(start) as int),
        decreases src@.len(),
    {
        match src.peek() {
            Some(c) => {
                if c.is_whitespace() {
                    src.next();
                    proof {
                        assert(start.skip(done).skip(1) =~= start.skip(done + 1));
                        done = done + 1;
                    }
                } else {
                    break ;
                }
            },
            None => {
                break ;
            },
        }
    }
}

/// Consumes the rest of the line and returns it. The line feed that ends
/// the line is consumed too, and is not part of what is returned; without
/// one the line runs to the end of the input.
pub fn consume_line(src: &mut Cursor) -> (line: String)
    ensures
        line@ == old(src)@.take(line_len(old(src)@) as int),
        final(src)@ == tail(old(src)@.skip(line_len(old(src)@) as int)),
{
    let mut line = String::new();
    let ghost start = src@;
    let ghost mut done: int = 0;
    loop
        invariant_except_break
            0 <= done <= start.len(),
            src@ == start.skip(done),
            line_len(start) == done + line_len(src@),
            line@ == start.take(done),
        ensures
            line@ == start.take(line_len(start) as int),
            src@ == tail(start.skip(line_len(start) as int)),
        decreases src@.len(),
    {
        match src.next() {
            Some(c) => {
                if c == '\n' {
                    break ;
                } else {
                    line.push(c);
                    proof {
                        assert(start.skip(done).skip(1) =~= start.skip(done + 1));
                        assert(start.take(done).push(c) =~= start.take(done + 1));
                        done = done + 1;
                    }
                }
            },
            None => {
                break ;
            },
        }
    }
    line
}

/// Consumes the next character if it is `next`, and says whether it did.
pub fn consume_match_next(src: &mut Cursor, next: char) -> (matched: bool)
    ensures
        matched == (head(old(src)@) == Some(next)),
        final(src)@ == (if matched {
            old(src)@.skip(1)
        } else {
            old(src)@
        }),
{
    let next_match = match src.peek() {
        Some(c) => c == next,
        None => false,
    };
    if next_match {
        src.next();
    }
    next_match
}

/// Consumes the next character if it is `next`. Returns what `b` gives
/// where it was, and what `a` gives where it was not.
pub fn consume_match_one_two<A, B, C>(src: &mut Cursor, next: char, a: A, b: B) -> (c: C) where
    A: Fn() -> C,
    B: Fn() -> C,

    requires
        call_requires(a, ()),
        call_requires(b, ()),
    ensures
        head(old(src)@) == Some(next) ==> call_ensures(b, (), c) && final(src)@ == old(src)@.skip(
            1,
        ),
        head(old(src)@) != Some(next) ==> call_ensures(a, (), c) && final(src)@ == old(src)@,
{
    if consume_match_next(src, next) {
        b()
    } else {
        a()
    }
}

/// Consumes the word characters that the input starts with and returns the
/// word that `c` and they make.
pub fn consume_identifer_or_keyword(src: &mut Cursor, c: char) -> (word: Result<String, ScanError>)
    ensures
        word is Ok,
        word->Ok_0@ == seq![c] + old(src)@.take(word_run(old(src)@) as int),
        final(src)@ == old(src)@.skip(word_run(old(src)@) as int),
{
    let mut s = String::new();
    s.push(c);
    let ghost start = src@;
    let ghost mut done: int = 0;
    assert(s@ =~= seq![c] + start.take(0));
    loop
        invariant
            0 <= done <= start.len(),
            src@ == start.skip(done),
            word_run(start) == done + word_run(src@),
            s@ == seq![c] + start.take(done),
        ensures
            s@ == seq![c] + start.take(word_run(start) as int),
            src@ == start.skip(word_run(start) as int),
        decreases src@.len(),
    {
        match src.peek() {
            Some(ch) => {
                if ch.is_alphanumeric() || ch == '_' {
                    s.push(ch);
                    src.next();
                    proof {
                        assert(start.skip(done).skip(1) =~= start.skip(done + 1));
                        assert((seq![c] + start.take(done)).push(ch) =~= seq![c] + start.take(
                            done + 1,
                        ));
                        done = done + 1;
                    }
                } else {
                    break ;
                }
            },
            None => {
                break ;
            },
        }
    }
    Ok(s)
}

/// Consumes the digits and points that the input starts with. Returns the
/// text that `c` and they make where that is a number literal, and the
/// error where it is not.
pub fn consume_number(src: &mut Cursor, c: char) -> (number: Result<String, ScanError>)
    ensures
        final(src)@ == old(src)@.skip(number_run(old(src)@) as int),
        ({
            let text = seq![c] + old(src)@.take(number_run(old(src)@) as int);
            if is_number_literal(text) {
                number is Ok && number->Ok_0@ == text
            } else {
                number is Err && number->Err_0 == ScanError::MalformedNumber
            }
        }),
{
    let mut num_str = String::new();
    num_str.push(c);
    let ghost start = src@;
    let ghost mut done: int = 0;
    assert(num_str@ =~= seq![c] + start.take(0));
    loop
        invariant
            0 <= done <= start.len(),
            src@ == start.skip(done),
            number_run(start) == done + number_run(src@),
            num_str@ == seq![c] + start.take(done),
        ensures
            num_str@ == seq![c] + start.take(number_run(start) as int),
            src@ == start.skip(number_run(start) as int),
        decreases src@.len(),
    {
        match src.peek() {
            Some(next_ch) => {
                if next_ch.is_numeric() || next_ch == '.' {
                    num_str.push(next_ch);
                    src.next();
                    proof {
                        assert(start.skip(done).skip(1) =~= start.skip(done + 1));
                        assert((seq![c] + start.take(done)).push(next_ch) =~= seq![c] + start.take(
                            done + 1,
                        ));
                        done = done + 1;
                    }
                } else {
                    break ;
                }
            },
            None => {
                break ;
            },
        }
    }
    if is_number(num_str.as_str()) {
        Ok(num_str)
    } else {
        Err(ScanError::MalformedNumber)
    }
}

/// The text between the delimiter that `s` starts with and the next
/// occurrence of the same character, if there is one.
pub open spec fn string_body(s: Seq<char>) -> Option<Seq<char>> {
    if s.len() == 0 {
        None
    } else {
        let body = s.skip(1);
        let n = len_before(body, s[0]);
        if n < body.len() {
            Some(body.take(n as int))
        } else {
            None
        }
    }
}

/// What is left of `s` behind the string literal that it starts with;
/// nothing if the literal is not closed.
pub open spec fn string_rest(s: Seq<char>) -> Seq<char> {
    match string_body(s) {
        Some(body) => s.skip(body.len() as int + 2),
        None => Seq::<char>::empty(),
    }
}

/// Consumes a string literal: the opening delimiter, which is the next
/// character, and the characters up to and with the next occurrence of the
/// same delimiter. Returns the characters between the two. Fails if the
/// input ends before the closing delimiter; the input is then used up.
///
/// The scan step does not call this: there a quotation mark starts no
/// token. A scanner that reads string literals calls it at the mark and
/// wraps the value in `Token::String`.
pub fn consume_string(src: &mut Cursor) -> (literal: Result<String, ScanError>)
    ensures
        final(src)@ == string_rest(old(src)@),
        match string_body(old(src)@) {
            Some(body) => literal is Ok && literal->Ok_0@ == body,
            None => literal is Err && literal->Err_0 == ScanError::UnterminatedString,
        },
{
    let ghost whole = src@;
    let delimiter = match src.next() {
        Some(c) => c,
        None => {
            return Err(ScanError::UnterminatedString);
        },
    };
    let mut value = String::new();
    let ghost start = src@;
    let ghost mut done: int = 0;
    assert(value@ =~= start.take(0));
    loop
        invariant
            whole == old(src)@,
            start == whole.skip(1),
            whole.len() > 0,
            delimiter == whole[0],
            0 <= done <= start.len(),
            src@ == start.skip(done),
            len_before(start, delimiter) == done + len_before(src@, delimiter),
            value@ == start.take(done),
        decreases src@.len(),
    {
        match src.next() {
            Some(c) => {
                if c == delimiter {
                    proof {
                        assert(start.skip(done).skip(1) =~= whole.skip(done + 2));
                    }
                    return Ok(value);
                } else {
                    value.push(c);
                    proof {
                        assert(start.skip(done).skip(1) =~= start.skip(done + 1));
                        assert(start.take(done).push(c) =~= start.take(done + 1));
                        done = done + 1;
                    }
                }
            },
            None => {
                proof {
                    assert(src@ =~= Seq::<char>::empty());
                }
                return Err(ScanError::UnterminatedString);
            },
        }
    }
}

/// One scan step: skips white space, then consumes one token and returns
/// it. At the end of the input, and at a character that starts no token,
/// the token is the end of input.
pub fn next_token(src: &mut Cursor) -> (token: Result<Token, ScanError>)
    ensures
        view_result(token) == scan(old(src)@).token,
        final(src)@ == scan(old(src)@).rest,
{
    eat_whitespace(src);
    let ch = match src.next() {
        Some(ch) => ch,
        None => {
            return Ok(Token::Eof);
        },
    };
    let token = match ch {
        '(' => Token::LeftParen,
        ')' => Token::RightParen,
        '{' => Token::LeftBrace,
        '}' => Token::RightBrace,
        ',' => Token::Comma,
        '.' => Token::Dot,
        '-' => Token::Minus,
        '+' => Token::Plus,
        ';' => Token::Semicolon,
        '/' => {
            let is_comment = consume_match_one_two(
                src,
                '/',
                (|| -> (b: bool)
                    ensures
                        !b,
                {
                    false
                }),
                (|| -> (b: bool)
                    ensures
                        b,
                {
                    true
                }),
            );
            if is_comment {
                Token::Comment(consume_line(src))
            } else {
                Token::Slash
            }
        },
        '*' => Token::Star,
        '!' => consume_match_one_two(
            src,
            '=',
            (|| -> (t: Token)
                ensures
                    t@ == TokenView::Bang,
            {
                Token::Bang
            }),
            (|| -> (t: Token)
                ensures
                    t@ == TokenView::BangEqual,
            {
                Token::BangEqual
            }),
        ),
        '=' => consume_match_one_two(
            src,
            '=',
            (|| -> (t: Token)
                ensures
                    t@ == TokenView::Equal,
            {
                Token::Equal
            }),
            (|| -> (t: Token)
                ensures
                    t@ == TokenView::EqualEqual,
            {
                Token::EqualEqual
            }),
        ),
        '>' => consume_match_one_two(
            src,
            '=',
            (|| -> (t: Token)
                ensures
                    t@ == TokenView::Greater,
            {
                Token::Greater
            }),
            (|| -> (t: Token)
                ensures
                    t@ == TokenView::GreaterEqual,
            {
                Token::GreaterEqual
            }),
        ),
        '<' => consume_match_one_two(
            src,
            '=',
            (|| -> (t: Token)
                ensures
                    t@ == TokenView::Less,
            {
                Token::Less
            }),
            (|| -> (t: Token)
                ensures
                    t@ == TokenView::LessEqual,
            {
                Token::LessEqual
            }),
        ),
        _ => {
            if ch.is_numeric() {
                match consume_number(src, ch) {
                    Ok(text) => Token::Number(text),
                    Err(e) => {
                        return Err(e);
                    },
                }
            } else if ch.is_alphanumeric() || ch == '_' {
                match consume_identifer_or_keyword(src, ch) {
                    Ok(word) => match match_keyword(word.as_str()) {
                        Some(reserved) => reserved,
                        None => Token::Identifier(word),
                    },
                    Err(e) => {
                        return Err(e);
                    },
                }
            } else {
                Token::Eof
            }
        },
    };
    Ok(token)
}

/// Scans `s` from start to end. Returns the tokens, and the error that
/// stopped the scan if one did. A scan that was not stopped ends with the
/// end-of-input token; one that was stopped holds the tokens before the
/// error and no end-of-input token.
pub fn scan_tokens(s: &str) -> (scanned: (Vec<Token>, Option<ScanError>))
    ensures
        views(scanned.0@) == lex(s@).tokens,
        scanned.1 == lex(s@).error,
        eof_only_last((Lexed { tokens: views(scanned.0@), error: scanned.1 })),
{
    proof {
        lemma_eof_only_last(s@);
    }
    let mut tokens: Vec<Token> = Vec::new();
    let mut error: Option<ScanError> = None;
    let mut src = Cursor::new(s);
    assert(views(tokens@) + lex(src@).tokens =~= lex(s@).tokens);
    loop
        invariant_except_break
            lex(s@).tokens == views(tokens@) + lex(src@).tokens,
            lex(s@).error == lex(src@).error,
            error is None,
        ensures
            views(tokens@) == lex(s@).tokens,
            error == lex(s@).error,
        decreases src@.len(),
    {
        let ghost before = src@;
        let ghost found = tokens@;
        proof {
            lemma_scan_advances(before);
        }
        match next_token(&mut src) {
            Ok(token) => {
                let eof = token.is_eof();
                tokens.push(token);
                proof {
                    assert(views(tokens@) =~= views(found).push(token@));
                    if eof {
                        assert(views(found) + seq![TokenView::Eof] =~= views(found).push(
                            TokenView::Eof,
                        ));
                    } else {
                        assert(views(found) + (seq![token@] + lex(src@).tokens) =~= views(
                            found,
                        ).push(token@) + lex(src@).tokens);
                    }
                }
                if eof {
                    break ;
                }
            },
            Err(err) => {
                proof {
                    assert(views(found) + Seq::<TokenView>::empty() =~= views(found));
                }
                error = Some(err);
                break ;
            },
        }
    }
    (tokens, error)
}

/// The tokens of `s`, the end-of-input token last. A scan that fails stops
/// there: the tokens before the failure are returned, without an
/// end-of-input token.
pub fn tokenize(s: &str) -> (tokens: Vec<Token>)
    ensures
        views(tokens@) == lex(s@).tokens,
        eof_only_last((Lexed { tokens: views(tokens@), error: lex(s@).error })),
        is_blank(s@) ==> views(tokens@) == seq![TokenView::Eof],
        s@.len() == 1 && symbol(s@[0]) is Some ==> views(tokens@) == seq![
            symbol(s@[0])->0,
            TokenView::Eof,
        ],
{
    proof {
        if is_blank(s@) {
            lemma_blank_yields_eof(s@);
        }
        if s@.len() == 1 && symbol(s@[0]) is Some {
            lemma_single_symbol(s@[0]);
            assert(s@ =~= seq![s@[0]]);
        }
    }
    let (tokens, _) = scan_tokens(s);
    tokens
}

} // verus!
