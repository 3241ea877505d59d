//! A lexer for a small scripting language: source text in, tokens out.
//!
//! [`tokenizer::tokenize`] turns a text into its tokens. What it returns is
//! fixed by [`grammar::lex`], a mathematical description of the lexical
//! grammar over sequences of characters; every function of the scanner is
//! proved against that description.
//!
//! - [`classify`]: the character classes, taken from the standard library.
//! - [`cursor`]: a cursor over the text, with one character of lookahead.
//! - [`token`]: the tokens, the reserved words, and a token's written form.
//! - [`number`]: the form of a number literal.
//! - [`grammar`]: the grammar of one scan step and of a whole scan.
//! - [`tokenizer`]: the scanner.
//! - [`laws`], [`round_trip`]: what holds of every scan.
//! - [`text`]: helpers on strings and characters.
pub mod classify;
pub mod cursor;
pub mod grammar;
pub mod laws;
pub mod number;
pub mod round_trip;
pub mod text;
pub mod token;
pub mod tokenizer;
