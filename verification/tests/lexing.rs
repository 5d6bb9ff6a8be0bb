use c4_interpreter::error::ErrorKind;
use c4_interpreter::lexer::{same_token, Lexer, Token};

fn tokens(code: &str) -> Vec<Token> {
    let mut lexer = Lexer::new(code);
    let mut out = Vec::new();
    loop {
        let token = lexer.next_token().expect("lexes");
        let done = token == Token::Eof;
        out.push(token);
        if done {
            return out;
        }
    }
}

fn lex_error(code: &str) -> (ErrorKind, usize, usize) {
    let mut lexer = Lexer::new(code);
    loop {
        match lexer.next_token() {
            Ok(Token::Eof) => panic!("no error"),
            Ok(_) => {}
            Err(e) => return (e.kind, e.line, e.col),
        }
    }
}

#[test]
fn empty_input_is_eof_for_ever() {
    let mut lexer = Lexer::new("");
    assert_eq!(lexer.next_token().unwrap(), Token::Eof);
    assert_eq!(lexer.next_token().unwrap(), Token::Eof);
    assert_eq!(lexer.get_position(), (1, 1));
}

#[test]
fn numbers_and_identifiers() {
    assert_eq!(
        tokens("x1 = 42;"),
        vec![
            Token::Identifier("x1".to_string()),
            Token::Assign,
            Token::Num(42),
            Token::Semicolon,
            Token::Eof
        ]
    );
}

#[test]
fn number_literal_wraps_around_in_32_bits() {
    assert_eq!(tokens("2147483647"), vec![Token::Num(2147483647), Token::Eof]);
    assert_eq!(tokens("2147483648"), vec![Token::Num(-2147483648), Token::Eof]);
    assert_eq!(tokens("4294967296"), vec![Token::Num(0), Token::Eof]);
    assert_eq!(tokens("4294967301"), vec![Token::Num(5), Token::Eof]);
}

#[test]
fn digits_then_letters_are_two_tokens() {
    assert_eq!(
        tokens("12ab"),
        vec![Token::Num(12), Token::Identifier("ab".to_string()), Token::Eof]
    );
}

#[test]
fn keywords() {
    assert_eq!(
        tokens("return if else while let true false fn print enum sizeof"),
        vec![
            Token::Return,
            Token::If,
            Token::Else,
            Token::While,
            Token::Let,
            Token::True,
            Token::False,
            Token::Fn,
            Token::Print,
            Token::Enum,
            Token::Sizeof,
            Token::Eof
        ]
    );
}

#[test]
fn type_names_and_void_are_identifiers() {
    assert_eq!(
        tokens("int char bool str void returns _if"),
        vec![
            Token::Identifier("int".to_string()),
            Token::Identifier("char".to_string()),
            Token::Identifier("bool".to_string()),
            Token::Identifier("str".to_string()),
            Token::Identifier("void".to_string()),
            Token::Identifier("returns".to_string()),
            Token::Identifier("_if".to_string()),
            Token::Eof
        ]
    );
}

#[test]
fn operators_longest_first() {
    assert_eq!(
        tokens("+ ++ - -- * / % = == ! != < << <= > >> >= & && | || ^ ~"),
        vec![
            Token::Add,
            Token::PlusPlus,
            Token::Sub,
            Token::MinusMinus,
            Token::Mul,
            Token::Div,
            Token::Mod,
            Token::Assign,
            Token::Equal,
            Token::Not,
            Token::NotEqual,
            Token::LessThan,
            Token::Shl,
            Token::LessEqual,
            Token::GreaterThan,
            Token::Shr,
            Token::GreaterEqual,
            Token::BitAnd,
            Token::And,
            Token::BitOr,
            Token::Or,
            Token::BitXor,
            Token::BitNot,
            Token::Eof
        ]
    );
}

#[test]
fn operators_without_spaces() {
    assert_eq!(
        tokens("a+++b"),
        vec![
            Token::Identifier("a".to_string()),
            Token::PlusPlus,
            Token::Add,
            Token::Identifier("b".to_string()),
            Token::Eof
        ]
    );
    assert_eq!(tokens("<<="), vec![Token::Shl, Token::Assign, Token::Eof]);
    assert_eq!(tokens("==="), vec![Token::Equal, Token::Assign, Token::Eof]);
}

#[test]
fn punctuation() {
    assert_eq!(
        tokens("( ) { } [ ] ; , : ?"),
        vec![
            Token::OpenParen,
            Token::CloseParen,
            Token::OpenBrace,
            Token::CloseBrace,
            Token::OpenBracket,
            Token::CloseBracket,
            Token::Semicolon,
            Token::Comma,
            Token::Colon,
            Token::QuestionMark,
            Token::Eof
        ]
    );
}

#[test]
fn unknown_character_is_a_token() {
    assert_eq!(tokens("@"), vec![Token::Unknown('@'), Token::Eof]);
    assert_eq!(tokens("1 # 2"), vec![Token::Num(1), Token::Unknown('#'), Token::Num(2), Token::Eof]);
}

#[test]
fn comments_run_to_the_end_of_the_line() {
    assert_eq!(
        tokens("1 // two 2\n3 // last"),
        vec![Token::Num(1), Token::Num(3), Token::Eof]
    );
    assert_eq!(tokens("// only a comment"), vec![Token::Eof]);
    assert_eq!(tokens("//\n//\n7"), vec![Token::Num(7), Token::Eof]);
}

#[test]
fn a_single_slash_divides() {
    assert_eq!(
        tokens("6 / 3"),
        vec![Token::Num(6), Token::Div, Token::Num(3), Token::Eof]
    );
}

#[test]
fn string_literal_with_escapes() {
    assert_eq!(
        tokens(r#""a\nb\t\"q\"\\""#),
        vec![Token::StringLiteral("a\nb\t\"q\"\\".to_string()), Token::Eof]
    );
    assert_eq!(tokens(r#""""#), vec![Token::StringLiteral(String::new()), Token::Eof]);
}

#[test]
fn string_literal_keeps_comment_marks_and_newlines() {
    assert_eq!(
        tokens("\"a // b\nc\""),
        vec![Token::StringLiteral("a // b\nc".to_string()), Token::Eof]
    );
}

#[test]
fn character_literal() {
    assert_eq!(tokens("'a'"), vec![Token::Char('a'), Token::Eof]);
    assert_eq!(tokens("'''"), vec![Token::Char('\''), Token::Eof]);
}

#[test]
fn unicode_white_space_is_skipped() {
    assert_eq!(
        tokens("1\u{00A0}2\u{2003}3\u{3000}4\r\n5\u{000B}6"),
        vec![
            Token::Num(1),
            Token::Num(2),
            Token::Num(3),
            Token::Num(4),
            Token::Num(5),
            Token::Num(6),
            Token::Eof
        ]
    );
}

#[test]
fn non_ascii_letter_is_unknown() {
    assert_eq!(tokens("\u{00E9}"), vec![Token::Unknown('\u{00E9}'), Token::Eof]);
}

#[test]
fn unterminated_string() {
    assert_eq!(lex_error("\"abc").0, ErrorKind::UnterminatedString);
    assert_eq!(lex_error("\"abc\\").0, ErrorKind::UnterminatedString);
}

#[test]
fn unknown_escape() {
    assert_eq!(lex_error(r#""a\qb""#), (ErrorKind::UnknownEscape, 1, 4));
}

#[test]
fn unterminated_character() {
    assert_eq!(lex_error("'").0, ErrorKind::UnterminatedChar);
    assert_eq!(lex_error("'a").0, ErrorKind::UnterminatedChar);
    assert_eq!(lex_error("'ab'").0, ErrorKind::UnterminatedChar);
    assert_eq!(lex_error("''").0, ErrorKind::UnterminatedChar);
}

#[test]
fn position_counts_lines_and_columns() {
    let mut lexer = Lexer::new("ab\n  cd // x\n\ne");
    assert_eq!(lexer.get_position(), (1, 1));
    assert_eq!(lexer.next_token().unwrap(), Token::Identifier("ab".to_string()));
    assert_eq!(lexer.get_position(), (1, 3));
    assert_eq!(lexer.next_token().unwrap(), Token::Identifier("cd".to_string()));
    assert_eq!(lexer.get_position(), (2, 5));
    assert_eq!(lexer.next_token().unwrap(), Token::Identifier("e".to_string()));
    assert_eq!(lexer.get_position(), (4, 2));
    assert_eq!(lexer.next_token().unwrap(), Token::Eof);
    assert_eq!(lexer.get_position(), (4, 2));
}

#[test]
fn position_after_a_string_that_spans_lines() {
    let mut lexer = Lexer::new("\"a\nb\" x");
    assert_eq!(lexer.next_token().unwrap(), Token::StringLiteral("a\nb".to_string()));
    assert_eq!(lexer.get_position(), (2, 3));
}

#[test]
fn same_token_compares_payloads() {
    assert!(same_token(&Token::Num(3), &Token::Num(3)));
    assert!(!same_token(&Token::Num(3), &Token::Num(4)));
    assert!(same_token(
        &Token::Identifier("a".to_string()),
        &Token::Identifier("a".to_string())
    ));
    assert!(!same_token(
        &Token::Identifier("a".to_string()),
        &Token::StringLiteral("a".to_string())
    ));
    assert!(!same_token(&Token::BitAnd, &Token::AddressOf));
    assert!(same_token(&Token::Eof, &Token::Eof));
}

#[test]
fn token_clone_is_equal() {
    let token = Token::StringLiteral("text".to_string());
    assert_eq!(token.clone(), token);
}

#[test]
fn white_space_is_the_unicode_property() {
    for code in 0..=0x10FFFFu32 {
        if let Some(c) = char::from_u32(code) {
            let text: String = [c].iter().collect();
            let mut lexer = Lexer::new(&text);
            let first = lexer.next_token();
            assert_eq!(c.is_whitespace(), matches!(first, Ok(Token::Eof)), "U+{:04X}", code);
        }
    }
}

#[test]
fn words_are_made_of_ascii_letters_digits_and_underscores() {
    for code in 0..128u32 {
        let c = char::from_u32(code).unwrap();
        let text: String = ['a', c, 'b'].iter().collect();
        let mut lexer = Lexer::new(&text);
        let first = lexer.next_token();
        let one_word = c.is_ascii_alphanumeric() || c == '_';
        let whole = matches!(&first, Ok(Token::Identifier(name)) if *name == text);
        assert_eq!(one_word, whole, "U+{:04X}", code);
    }
}
