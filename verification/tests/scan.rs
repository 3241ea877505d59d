use lox::tokenizer::{scan_tokens, tokenize, ScanError, Token};

fn ident(s: &str) -> Token {
    Token::Identifier(s.to_string())
}

fn number(s: &str) -> Token {
    Token::Number(s.to_string())
}

fn comment(s: &str) -> Token {
    Token::Comment(s.to_string())
}

#[test]
fn empty_input_is_end_of_input() {
    assert_eq!(tokenize(""), vec![Token::Eof]);
}

#[test]
fn blank_input_is_end_of_input() {
    assert_eq!(tokenize(" "), vec![Token::Eof]);
    assert_eq!(tokenize(" \t\r\n \n"), vec![Token::Eof]);
    assert_eq!(tokenize("\u{b}\u{c}"), vec![Token::Eof]);
}

#[test]
fn blank_input_beyond_ascii_is_end_of_input() {
    assert_eq!(tokenize("\u{a0}\u{2003}\u{3000}"), vec![Token::Eof]);
    assert_eq!(scan_tokens("\u{85} \u{2028}"), (vec![Token::Eof], None));
}

#[test]
fn each_symbol_alone() {
    let cases = [
        ("(", Token::LeftParen),
        (")", Token::RightParen),
        ("{", Token::LeftBrace),
        ("}", Token::RightBrace),
        (",", Token::Comma),
        (".", Token::Dot),
        ("-", Token::Minus),
        ("+", Token::Plus),
        (";", Token::Semicolon),
        ("*", Token::Star),
    ];
    for (text, token) in cases {
        assert_eq!(tokenize(text), vec![token, Token::Eof], "{}", text);
    }
}

#[test]
fn slash_alone() {
    assert_eq!(tokenize("/"), vec![Token::Slash, Token::Eof]);
    assert_eq!(tokenize("/ /"), vec![Token::Slash, Token::Slash, Token::Eof]);
    assert_eq!(tokenize("/*"), vec![Token::Slash, Token::Star, Token::Eof]);
}

#[test]
fn bang_equal_and_bang() {
    assert_eq!(tokenize("!="), vec![Token::BangEqual, Token::Eof]);
    assert_eq!(tokenize("!"), vec![Token::Bang, Token::Eof]);
}

#[test]
fn operators_with_and_without_equal() {
    assert_eq!(tokenize("="), vec![Token::Equal, Token::Eof]);
    assert_eq!(tokenize("=="), vec![Token::EqualEqual, Token::Eof]);
    assert_eq!(tokenize(">"), vec![Token::Greater, Token::Eof]);
    assert_eq!(tokenize(">="), vec![Token::GreaterEqual, Token::Eof]);
    assert_eq!(tokenize("<"), vec![Token::Less, Token::Eof]);
    assert_eq!(tokenize("<="), vec![Token::LessEqual, Token::Eof]);
}

#[test]
fn operator_lookahead_is_one_character() {
    assert_eq!(tokenize("==="), vec![Token::EqualEqual, Token::Equal, Token::Eof]);
    assert_eq!(tokenize("! ="), vec![Token::Bang, Token::Equal, Token::Eof]);
    assert_eq!(tokenize("<=>"), vec![Token::LessEqual, Token::Greater, Token::Eof]);
    assert_eq!(tokenize("!!="), vec![Token::Bang, Token::BangEqual, Token::Eof]);
}

#[test]
fn comment_to_end_of_line() {
    assert_eq!(tokenize("// hello\n"), vec![comment(" hello"), Token::Eof]);
}

#[test]
fn comment_payload_is_exact() {
    let tokens = tokenize("// hello\n");
    match &tokens[0] {
        Token::Comment(text) => assert_eq!(text, " hello"),
        other => panic!("{:?}", other),
    }
    assert_eq!(tokens.len(), 2);
}

#[test]
fn comment_without_line_feed_runs_to_the_end() {
    assert_eq!(tokenize("// hi"), vec![comment(" hi"), Token::Eof]);
    assert_eq!(tokenize("//"), vec![comment(""), Token::Eof]);
    assert_eq!(tokenize("//\n"), vec![comment(""), Token::Eof]);
}

#[test]
fn comment_ends_at_the_line_feed() {
    assert_eq!(tokenize("//a\n+"), vec![comment("a"), Token::Plus, Token::Eof]);
    assert_eq!(tokenize("+ // a // b\r\n-"), vec![
        Token::Plus,
        comment(" a // b\r"),
        Token::Minus,
        Token::Eof
    ]);
    assert_eq!(tokenize("///\n//"), vec![comment("/"), comment(""), Token::Eof]);
}

#[test]
fn number_with_point() {
    assert_eq!(tokenize("3.14"), vec![number("3.14"), Token::Eof]);
    match &tokenize("3.14")[0] {
        Token::Number(text) => assert_eq!(text.parse::<f64>().unwrap(), 3.14),
        other => panic!("{:?}", other),
    }
}

#[test]
fn number_without_point() {
    assert_eq!(tokenize("42"), vec![number("42"), Token::Eof]);
    match &tokenize("42")[0] {
        Token::Number(text) => assert_eq!(text.parse::<f64>().unwrap(), 42.0),
        other => panic!("{:?}", other),
    }
}

#[test]
fn number_may_end_in_a_point() {
    assert_eq!(scan_tokens("12."), (vec![number("12."), Token::Eof], None));
    assert_eq!("12.".parse::<f64>().unwrap(), 12.0);
}

#[test]
fn number_is_read_greedily() {
    assert_eq!(tokenize("007"), vec![number("007"), Token::Eof]);
    assert_eq!(tokenize("1+2"), vec![number("1"), Token::Plus, number("2"), Token::Eof]);
    assert_eq!(tokenize("1abc"), vec![number("1"), ident("abc"), Token::Eof]);
    assert_eq!(tokenize(".5"), vec![Token::Dot, number("5"), Token::Eof]);
    assert_eq!(tokenize("1.5;"), vec![number("1.5"), Token::Semicolon, Token::Eof]);
}

#[test]
fn every_scanned_number_parses() {
    for text in ["0", "9", "10", "3.14", "12.", "0.000001", "123456789012345678901234567890"] {
        let tokens = tokenize(text);
        assert_eq!(tokens, vec![number(text), Token::Eof]);
        assert!(text.parse::<f64>().is_ok());
    }
}

#[test]
fn two_points_are_malformed() {
    assert_eq!(scan_tokens("1.2.3"), (vec![], Some(ScanError::MalformedNumber)));
    assert_eq!(tokenize("1.2.3"), vec![]);
    assert!("1.2.3".parse::<f64>().is_err());
}

#[test]
fn points_in_a_row_are_malformed() {
    assert_eq!(scan_tokens("1..2"), (vec![], Some(ScanError::MalformedNumber)));
    assert_eq!(scan_tokens("1.."), (vec![], Some(ScanError::MalformedNumber)));
}

#[test]
fn digit_beyond_ascii_is_malformed() {
    assert_eq!(scan_tokens("\u{663}"), (vec![], Some(ScanError::MalformedNumber)));
    assert_eq!(scan_tokens("1\u{663}"), (vec![], Some(ScanError::MalformedNumber)));
    assert_eq!(scan_tokens("\u{bd}"), (vec![], Some(ScanError::MalformedNumber)));
    assert!("1\u{663}".parse::<f64>().is_err());
}

#[test]
fn error_stops_the_scan() {
    assert_eq!(
        scan_tokens("x = 1.2.3; y"),
        (vec![ident("x"), Token::Equal], Some(ScanError::MalformedNumber))
    );
    assert_eq!(tokenize("x = 1.2.3; y"), vec![ident("x"), Token::Equal]);
}

#[test]
fn var_is_reserved() {
    assert_eq!(tokenize("var"), vec![Token::Var, Token::Eof]);
}

#[test]
fn variable_is_an_identifier() {
    assert_eq!(tokenize("variable"), vec![ident("variable"), Token::Eof]);
}

#[test]
fn and_or_if() {
    assert_eq!(tokenize("and or if"), vec![Token::And, Token::Or, Token::If, Token::Eof]);
}

#[test]
fn each_reserved_word_alone() {
    let cases = [
        ("and", Token::And),
        ("class", Token::Class),
        ("else", Token::Else),
        ("false", Token::False),
        ("fun", Token::Fun),
        ("for", Token::For),
        ("if", Token::If),
        ("nil", Token::Nil),
        ("or", Token::Or),
        ("print", Token::Print),
        ("return", Token::Return),
        ("super", Token::Super),
        ("this", Token::This),
        ("true", Token::True),
        ("var", Token::Var),
        ("while", Token::While),
    ];
    for (text, token) in cases {
        assert_eq!(tokenize(text), vec![token, Token::Eof], "{}", text);
    }
}

#[test]
fn reserved_words_are_case_sensitive() {
    assert_eq!(tokenize("And"), vec![ident("And"), Token::Eof]);
    assert_eq!(tokenize("IF"), vec![ident("IF"), Token::Eof]);
    assert_eq!(tokenize("whilE"), vec![ident("whilE"), Token::Eof]);
}

#[test]
fn reserved_word_inside_a_word_is_an_identifier() {
    assert_eq!(tokenize("android"), vec![ident("android"), Token::Eof]);
    assert_eq!(tokenize("iff"), vec![ident("iff"), Token::Eof]);
    assert_eq!(tokenize("or_"), vec![ident("or_"), Token::Eof]);
    assert_eq!(tokenize("for2"), vec![ident("for2"), Token::Eof]);
    assert_eq!(tokenize("i"), vec![ident("i"), Token::Eof]);
}

#[test]
fn underscore_starts_and_continues_a_word() {
    assert_eq!(tokenize("_"), vec![ident("_"), Token::Eof]);
    assert_eq!(tokenize("_foo"), vec![ident("_foo"), Token::Eof]);
    assert_eq!(tokenize("foo_bar1"), vec![ident("foo_bar1"), Token::Eof]);
    assert_eq!(tokenize("a.b"), vec![ident("a"), Token::Dot, ident("b"), Token::Eof]);
}

#[test]
fn letters_beyond_ascii_make_words() {
    assert_eq!(tokenize("\u{fc}ber"), vec![ident("\u{fc}ber"), Token::Eof]);
    assert_eq!(tokenize("x\u{663}"), vec![ident("x\u{663}"), Token::Eof]);
    assert_eq!(tokenize("\u{85e4} \u{4e09}"), vec![
        ident("\u{85e4}"),
        ident("\u{4e09}"),
        Token::Eof
    ]);
}

#[test]
fn unrecognized_character_ends_the_scan() {
    assert_eq!(scan_tokens("@"), (vec![Token::Eof], None));
    assert_eq!(tokenize("a @ b"), vec![ident("a"), Token::Eof]);
    assert_eq!(tokenize("#"), vec![Token::Eof]);
    assert_eq!(tokenize("\u{2603}+"), vec![Token::Eof]);
}

#[test]
fn quotation_mark_starts_no_token() {
    assert_eq!(tokenize("\"abc\""), vec![Token::Eof]);
    assert_eq!(tokenize("x \"abc\""), vec![ident("x"), Token::Eof]);
}

#[test]
fn white_space_separates_and_is_dropped() {
    assert_eq!(tokenize("  a\t\tb\n\nc  "), vec![ident("a"), ident("b"), ident("c"), Token::Eof]);
    assert_eq!(tokenize("a\u{a0}b"), vec![ident("a"), ident("b"), Token::Eof]);
    assert_eq!(tokenize("(\n)"), vec![Token::LeftParen, Token::RightParen, Token::Eof]);
}

#[test]
fn a_small_program() {
    let source = "var pi = 3.14;\n// this is a comment\nvar c = d <= pi;\nif (c != nil) { print c * 2; }";
    assert_eq!(scan_tokens(source), (
        vec![
            Token::Var,
            ident("pi"),
            Token::Equal,
            number("3.14"),
            Token::Semicolon,
            comment(" this is a comment"),
            Token::Var,
            ident("c"),
            Token::Equal,
            ident("d"),
            Token::LessEqual,
            ident("pi"),
            Token::Semicolon,
            Token::If,
            Token::LeftParen,
            ident("c"),
            Token::BangEqual,
            Token::Nil,
            Token::RightParen,
            Token::LeftBrace,
            Token::Print,
            ident("c"),
            Token::Star,
            number("2"),
            Token::Semicolon,
            Token::RightBrace,
            Token::Eof,
        ],
        None
    ));
}

#[test]
fn end_of_input_is_last_and_only_last() {
    let sources = ["", "a", "a b c", "1 + 2 // sum\n", "@", "a @ b", "fun f() { return 1.5; }"];
    for source in sources {
        let (tokens, error) = scan_tokens(source);
        assert_eq!(error, None);
        assert_eq!(tokens.last(), Some(&Token::Eof), "{}", source);
        let count = tokens.iter().filter(|t| **t == Token::Eof).count();
        assert_eq!(count, 1, "{}", source);
    }
}

#[test]
fn failed_scan_has_no_end_of_input() {
    for source in ["1.2.3", "a 1..", "x = 4.5.6 // c\n", "\u{663}"] {
        let (tokens, error) = scan_tokens(source);
        assert_eq!(error, Some(ScanError::MalformedNumber), "{}", source);
        assert!(tokens.iter().all(|t| *t != Token::Eof), "{}", source);
        assert_eq!(tokenize(source), tokens);
    }
}

#[test]
fn symbols_and_reserved_words_round_trip() {
    let tokens = vec![
        Token::LeftParen,
        Token::RightParen,
        Token::LeftBrace,
        Token::RightBrace,
        Token::Comma,
        Token::Dot,
        Token::Minus,
        Token::Plus,
        Token::Semicolon,
        Token::Slash,
        Token::Slash,
        Token::Star,
        Token::Bang,
        Token::Equal,
        Token::BangEqual,
        Token::Equal,
        Token::EqualEqual,
        Token::Greater,
        Token::GreaterEqual,
        Token::Less,
        Token::LessEqual,
        Token::And,
        Token::Class,
        Token::Else,
        Token::False,
        Token::Fun,
        Token::For,
        Token::If,
        Token::Nil,
        Token::Or,
        Token::Print,
        Token::Return,
        Token::Super,
        Token::This,
        Token::True,
        Token::Var,
        Token::While,
    ];
    let mut text = String::new();
    for token in &tokens {
        text.push(' ');
        text.push_str(&token.to_string());
    }
    let mut expected = tokens.clone();
    expected.push(Token::Eof);
    assert_eq!(scan_tokens(&text), (expected, None));
}

#[test]
fn round_trip_of_a_scan() {
    let first = tokenize("while (true) { this.x = !super.y >= nil; }");
    let mut text = String::new();
    for token in &first[..first.len() - 1] {
        text.push(' ');
        text.push_str(&token.to_string());
    }
    assert_eq!(tokenize(&text), first);
}

#[test]
fn tokenize_agrees_with_scan_tokens() {
    for source in ["", "a + b", "1.2.3", "// c", "var x = 10;"] {
        assert_eq!(tokenize(source), scan_tokens(source).0);
    }
}
