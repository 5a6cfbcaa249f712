use lexer::{
    split_tokens, Arrow, Delimiter, Keyword, Operator, ScanError, Separator, SplitTokens, Token,
    TokenKind,
};

fn scan(s: &str) -> Vec<Result<Token, ScanError>> {
    let mut it = split_tokens(s);
    let mut out = Vec::new();
    while let Some(r) = it.next() {
        out.push(r);
    }
    out
}

fn tok(kind: TokenKind, lexeme: &str, start: usize) -> Result<Token, ScanError> {
    Ok(Token { kind, lexeme: lexeme.to_string(), start })
}

fn kinds(s: &str) -> Vec<TokenKind> {
    scan(s).into_iter().map(|r| r.unwrap().kind).collect()
}

#[test]
fn fat_arrow_is_one_token() {
    assert_eq!(scan("=>"), vec![tok(TokenKind::Arrow(Arrow::FatArrow), "=>", 0)]);
}

#[test]
fn double_slash_is_a_comment() {
    assert_eq!(scan("//"), vec![tok(TokenKind::Comment, "//", 0)]);
}

#[test]
fn double_star_is_pow() {
    assert_eq!(scan("**"), vec![tok(TokenKind::Operator(Operator::Pow), "**", 0)]);
}

#[test]
fn empty_input_yields_nothing() {
    assert_eq!(scan(""), vec![]);
}

#[test]
fn whitespace_only_yields_nothing() {
    assert_eq!(scan("  \t\n \r\n  "), vec![]);
}

#[test]
fn sign_sticks_to_digits() {
    assert_eq!(
        scan("catfood-45"),
        vec![
            tok(TokenKind::Identifier, "catfood", 0),
            tok(TokenKind::Number(-45), "-45", 7),
        ]
    );
}

#[test]
fn digits_then_letters_split_in_two() {
    assert_eq!(
        scan("67z23"),
        vec![tok(TokenKind::Number(67), "67", 0), tok(TokenKind::Identifier, "z23", 2)]
    );
}

#[test]
fn let_statement_with_escaped_quote() {
    assert_eq!(
        scan("let my_string := \"lol\\\"test\";"),
        vec![
            tok(TokenKind::Keyword(Keyword::Let), "let", 0),
            tok(TokenKind::Identifier, "my_string", 4),
            tok(TokenKind::Operator(Operator::Assign), ":=", 14),
            tok(TokenKind::Str("lol\"test".to_string()), "\"lol\\\"test\"", 17),
            tok(TokenKind::Separator(Separator::Semi), ";", 28),
        ]
    );
}

#[test]
fn unterminated_string_stops_the_scan() {
    let mut it = split_tokens("\"abc");
    assert_eq!(it.next(), Some(Err(ScanError::UnterminatedString { position: 0 })));
    assert_eq!(it.next(), None);
    assert_eq!(it.next(), None);
}

#[test]
fn escaped_quote_does_not_close() {
    assert_eq!(scan("x \"ab\\\""), vec![
        tok(TokenKind::Identifier, "x", 0),
        Err(ScanError::UnterminatedString { position: 2 }),
    ]);
}

#[test]
fn macro_name_takes_its_bang() {
    assert_eq!(scan("foo!"), vec![tok(TokenKind::MacroName, "foo!", 0)]);
}

#[test]
fn keyword_with_bang_is_a_macro_name() {
    assert_eq!(scan("if!"), vec![tok(TokenKind::MacroName, "if!", 0)]);
}

#[test]
fn type_name_leaves_its_bang() {
    assert_eq!(
        scan("Foo Bar! x"),
        vec![
            tok(TokenKind::TypeName, "Foo", 0),
            tok(TokenKind::TypeName, "Bar", 4),
            Err(ScanError::InvalidChar { ch: '!', position: 7 }),
        ]
    );
}

#[test]
fn number_lexemes_read_back() {
    for text in ["0", "42", "-7", "+19", "2147483647", "-2147483648", "007"] {
        let toks = scan(text);
        assert_eq!(toks.len(), 1);
        let t = toks[0].clone().unwrap();
        assert_eq!(t.lexeme, text);
        assert_eq!(t.kind, TokenKind::Number(text.parse::<i32>().unwrap()));
    }
}

#[test]
fn extreme_numbers() {
    assert_eq!(scan("-2147483648"), vec![tok(TokenKind::Number(i32::MIN), "-2147483648", 0)]);
    assert_eq!(scan("2147483647"), vec![tok(TokenKind::Number(i32::MAX), "2147483647", 0)]);
}

#[test]
fn number_overflow_carries_its_lexeme() {
    assert_eq!(
        scan("1 2147483648 3"),
        vec![
            tok(TokenKind::Number(1), "1", 0),
            Err(ScanError::NumberOverflow { lexeme: "2147483648".to_string(), position: 2 }),
        ]
    );
    assert_eq!(
        scan("-2147483649"),
        vec![Err(ScanError::NumberOverflow { lexeme: "-2147483649".to_string(), position: 0 })]
    );
    assert_eq!(
        scan("+99999999999999999999"),
        vec![Err(ScanError::NumberOverflow {
            lexeme: "+99999999999999999999".to_string(),
            position: 0,
        })]
    );
}

#[test]
fn escapes_decode_and_round_trip() {
    let value = "a\"b\\c\nd\te\0f'g";
    let mut literal = String::from("\"");
    for c in value.chars() {
        match c {
            '\\' => literal.push_str("\\\\"),
            '"' => literal.push_str("\\\""),
            '\n' => literal.push_str("\\n"),
            '\t' => literal.push_str("\\t"),
            '\0' => literal.push_str("\\0"),
            c => literal.push(c),
        }
    }
    literal.push('"');
    assert_eq!(scan(&literal), vec![tok(TokenKind::Str(value.to_string()), &literal, 0)]);
}

#[test]
fn single_quote_escape_decodes() {
    assert_eq!(scan("\"\\'\""), vec![tok(TokenKind::Str("'".to_string()), "\"\\'\"", 0)]);
}

#[test]
fn empty_string_literal() {
    assert_eq!(scan("\"\""), vec![tok(TokenKind::Str(String::new()), "\"\"", 0)]);
}

#[test]
fn invalid_escape_is_reported() {
    let mut it = split_tokens("\"a\\qb\" x");
    assert_eq!(it.next(), Some(Err(ScanError::InvalidEscape { ch: 'q', position: 3 })));
    assert_eq!(it.next(), None);
}

#[test]
fn invalid_char_stops_the_scan() {
    let mut it = SplitTokens::new("a @ b");
    assert_eq!(it.next(), Some(tok(TokenKind::Identifier, "a", 0)));
    assert_eq!(it.next(), Some(Err(ScanError::InvalidChar { ch: '@', position: 2 })));
    assert_eq!(it.next(), None);
}

#[test]
fn lone_equals_is_invalid() {
    assert_eq!(scan("="), vec![Err(ScanError::InvalidChar { ch: '=', position: 0 })]);
}

#[test]
fn comments_run_to_end_of_line() {
    assert_eq!(
        scan("x // hi\n/// doc\ny"),
        vec![
            tok(TokenKind::Identifier, "x", 0),
            tok(TokenKind::Comment, "// hi", 2),
            tok(TokenKind::DocComment, "/// doc", 8),
            tok(TokenKind::Identifier, "y", 16),
        ]
    );
}

#[test]
fn all_keywords() {
    assert_eq!(
        kinds("if else match while loop true false let type return gen func iffy"),
        vec![
            TokenKind::Keyword(Keyword::If),
            TokenKind::Keyword(Keyword::Else),
            TokenKind::Keyword(Keyword::Match),
            TokenKind::Keyword(Keyword::While),
            TokenKind::Keyword(Keyword::Loop),
            TokenKind::Keyword(Keyword::True),
            TokenKind::Keyword(Keyword::False),
            TokenKind::Keyword(Keyword::Let),
            TokenKind::Keyword(Keyword::Type),
            TokenKind::Keyword(Keyword::Return),
            TokenKind::Keyword(Keyword::Gen),
            TokenKind::Keyword(Keyword::Func),
            TokenKind::Identifier,
        ]
    );
}

#[test]
fn all_symbols() {
    assert_eq!(
        kinds("-> => + - * ** / % == != > < >= <= := | & { } [ ] ( ) , : ; ."),
        vec![
            TokenKind::Arrow(Arrow::RArrow),
            TokenKind::Arrow(Arrow::FatArrow),
            TokenKind::Operator(Operator::Add),
            TokenKind::Operator(Operator::Sub),
            TokenKind::Operator(Operator::Mul),
            TokenKind::Operator(Operator::Pow),
            TokenKind::Operator(Operator::Div),
            TokenKind::Operator(Operator::Mod),
            TokenKind::Operator(Operator::Eq),
            TokenKind::Operator(Operator::Ne),
            TokenKind::Operator(Operator::Gt),
            TokenKind::Operator(Operator::Lt),
            TokenKind::Operator(Operator::Ge),
            TokenKind::Operator(Operator::Le),
            TokenKind::Operator(Operator::Assign),
            TokenKind::Operator(Operator::Or),
            TokenKind::Operator(Operator::And),
            TokenKind::Delimiter(Delimiter::CurlyLeft),
            TokenKind::Delimiter(Delimiter::CurlyRight),
            TokenKind::Delimiter(Delimiter::SquareLeft),
            TokenKind::Delimiter(Delimiter::SquareRight),
            TokenKind::Delimiter(Delimiter::ParLeft),
            TokenKind::Delimiter(Delimiter::ParRight),
            TokenKind::Separator(Separator::Comma),
            TokenKind::Separator(Separator::Colon),
            TokenKind::Separator(Separator::Semi),
            TokenKind::Dot,
        ]
    );
}

#[test]
fn spaced_minus_is_an_operator() {
    assert_eq!(
        kinds("a - 5 a -5"),
        vec![
            TokenKind::Identifier,
            TokenKind::Operator(Operator::Sub),
            TokenKind::Number(5),
            TokenKind::Identifier,
            TokenKind::Number(-5),
        ]
    );
}

#[test]
fn unicode_identifier_and_positions_in_chars() {
    assert_eq!(
        scan("日本語a+123"),
        vec![tok(TokenKind::Identifier, "日本語a", 0), tok(TokenKind::Number(123), "+123", 4)]
    );
}

#[test]
fn underscore_starts_an_identifier() {
    assert_eq!(scan("_x1"), vec![tok(TokenKind::Identifier, "_x1", 0)]);
}

#[test]
fn unicode_uppercase_leads_a_type_name() {
    assert_eq!(scan("Élan"), vec![tok(TokenKind::TypeName, "Élan", 0)]);
}

#[test]
fn nested_expression() {
    assert_eq!(
        kinds("{2133 ** 21} % 2"),
        vec![
            TokenKind::Delimiter(Delimiter::CurlyLeft),
            TokenKind::Number(2133),
            TokenKind::Operator(Operator::Pow),
            TokenKind::Number(21),
            TokenKind::Delimiter(Delimiter::CurlyRight),
            TokenKind::Operator(Operator::Mod),
            TokenKind::Number(2),
        ]
    );
}
