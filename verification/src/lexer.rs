//! The tokenizer: it turns source text into tokens, one per call, and keeps
//! the line and column it has reached.

use vstd::prelude::*;
use vstd::string::StringExecFns;
use crate::error::{Error, ErrorKind, ErrorView};
use crate::scanning::{
    current, error_at, is_digit, is_space, is_word_part, lemma_start_placed, lemma_step_placed,
    lex_token, more, next_is, one_or_two, placed, scan_char, scan_number, scan_string, scan_word,
    single_token, skip_blank, start_of, step, word_token, Lexed, LexerView,
};

verus! {

/// A token.
#[derive(Debug, PartialEq, Eq)]
pub enum Token {
    /// An integer literal
    Num(i32),
    /// An identifier (also a type name, and `void`)
    Identifier(String),
    Return,
    If,
    Else,
    While,
    Let,
    OpenParen,
    CloseParen,
    OpenBrace,
    CloseBrace,
    OpenBracket,
    CloseBracket,
    Semicolon,
    Assign,
    Add,
    Sub,
    Mul,
    Div,
    Equal,
    NotEqual,
    LessThan,
    GreaterThan,
    LessEqual,
    GreaterEqual,
    /// End of input
    Eof,
    /// A character that starts no token
    Unknown(char),
    True,
    False,
    /// A character literal
    Char(char),
    Fn,
    Comma,
    /// `&&`
    And,
    /// `||`
    Or,
    /// `!`
    Not,
    Print,
    Enum,
    /// A string literal, escapes resolved
    StringLiteral(String),
    Sizeof,
    Colon,
    /// Address-of; the tokenizer gives `BitAnd` for `&`
    AddressOf,
    /// Dereference; the tokenizer gives `Mul` for `*`
    Deref,
    PlusPlus,
    MinusMinus,
    QuestionMark,
    Mod,
    /// `&`
    BitAnd,
    /// `|`
    BitOr,
    /// `^`
    BitXor,
    /// `~`
    BitNot,
    /// `<<`
    Shl,
    /// `>>`
    Shr,
}

/// The mathematical value of a [`Token`].
pub enum TokenView {
    Num(i32),
    Identifier(Seq<char>),
    Return,
    If,
    Else,
    While,
    Let,
    OpenParen,
    CloseParen,
    OpenBrace,
    CloseBrace,
    OpenBracket,
    CloseBracket,
    Semicolon,
    Assign,
    Add,
    Sub,
    Mul,
    Div,
    Equal,
    NotEqual,
    LessThan,
    GreaterThan,
    LessEqual,
    GreaterEqual,
    Eof,
    Unknown(char),
    True,
    False,
    Char(char),
    Fn,
    Comma,
    And,
    Or,
    Not,
    Print,
    Enum,
    StringLiteral(Seq<char>),
    Sizeof,
    Colon,
    AddressOf,
    Deref,
    PlusPlus,
    MinusMinus,
    QuestionMark,
    Mod,
    BitAnd,
    BitOr,
    BitXor,
    BitNot,
    Shl,
    Shr,
}

impl View for Token {
    type V = TokenView;

    open spec fn view(&self) -> TokenView {
        match self {
            Token::Num(n) => TokenView::Num(*n),
            Token::Identifier(s) => TokenView::Identifier(s@),
            Token::Return => TokenView::Return,
            Token::If => TokenView::If,
            Token::Else => TokenView::Else,
            Token::While => TokenView::While,
            Token::Let => TokenView::Let,
            Token::OpenParen => TokenView::OpenParen,
            Token::CloseParen => TokenView::CloseParen,
            Token::OpenBrace => TokenView::OpenBrace,
            Token::CloseBrace => TokenView::CloseBrace,
            Token::OpenBracket => TokenView::OpenBracket,
            Token::CloseBracket => TokenView::CloseBracket,
            Token::Semicolon => TokenView::Semicolon,
            Token::Assign => TokenView::Assign,
            Token::Add => TokenView::Add,
            Token::Sub => TokenView::Sub,
            Token::Mul => TokenView::Mul,
            Token::Div => TokenView::Div,
            Token::Equal => TokenView::Equal,
            Token::NotEqual => TokenView::NotEqual,
            Token::LessThan => TokenView::LessThan,
            Token::GreaterThan => TokenView::GreaterThan,
            Token::LessEqual => TokenView::LessEqual,
            Token::GreaterEqual => TokenView::GreaterEqual,
            Token::Eof => TokenView::Eof,
            Token::Unknown(c) => TokenView::Unknown(*c),
            Token::True => TokenView::True,
            Token::False => TokenView::False,
            Token::Char(c) => TokenView::Char(*c),
            Token::Fn => TokenView::Fn,
            Token::Comma => TokenView::Comma,
            Token::And => TokenView::And,
            Token::Or => TokenView::Or,
            Token::Not => TokenView::Not,
            Token::Print => TokenView::Print,
            Token::Enum => TokenView::Enum,
            Token::StringLiteral(s) => TokenView::StringLiteral(s@),
            Token::Sizeof => TokenView::Sizeof,
            Token::Colon => TokenView::Colon,
            Token::AddressOf => TokenView::AddressOf,
            Token::Deref => TokenView::Deref,
            Token::PlusPlus => TokenView::PlusPlus,
            Token::MinusMinus => TokenView::MinusMinus,
            Token::QuestionMark => TokenView::QuestionMark,
            Token::Mod => TokenView::Mod,
            Token::BitAnd => TokenView::BitAnd,
            Token::BitOr => TokenView::BitOr,
            Token::BitXor => TokenView::BitXor,
            Token::BitNot => TokenView::BitNot,
            Token::Shl => TokenView::Shl,
            Token::Shr => TokenView::Shr,
        }
    }
}

impl Clone for Token {
    fn clone(&self) -> (out: Token)
        ensures
            out == *self,
    {
        match self {
            Token::Num(n) => Token::Num(*n),
            Token::Identifier(s) => Token::Identifier(s.clone()),
            Token::Return => Token::Return,
            Token::If => Token::If,
            Token::Else => Token::Else,
            Token::While => Token::While,
            Token::Let => Token::Let,
            Token::OpenParen => Token::OpenParen,
            Token::CloseParen => Token::CloseParen,
            Token::OpenBrace => Token::OpenBrace,
            Token::CloseBrace => Token::CloseBrace,
            Token::OpenBracket => Token::OpenBracket,
            Token::CloseBracket => Token::CloseBracket,
            Token::Semicolon => Token::Semicolon,
            Token::Assign => Token::Assign,
            Token::Add => Token::Add,
            Token::Sub => Token::Sub,
            Token::Mul => Token::Mul,
            Token::Div => Token::Div,
            Token::Equal => Token::Equal,
            Token::NotEqual => Token::NotEqual,
            Token::LessThan => Token::LessThan,
            Token::GreaterThan => Token::GreaterThan,
            Token::LessEqual => Token::LessEqual,
            Token::GreaterEqual => Token::GreaterEqual,
            Token::Eof => Token::Eof,
            Token::Unknown(c) => Token::Unknown(*c),
            Token::True => Token::True,
            Token::False => Token::False,
            Token::Char(c) => Token::Char(*c),
            Token::Fn => Token::Fn,
            Token::Comma => Token::Comma,
            Token::And => Token::And,
            Token::Or => Token::Or,
            Token::Not => Token::Not,
            Token::Print => Token::Print,
            Token::Enum => Token::Enum,
            Token::StringLiteral(s) => Token::StringLiteral(s.clone()),
            Token::Sizeof => Token::Sizeof,
            Token::Colon => Token::Colon,
            Token::AddressOf => Token::AddressOf,
            Token::Deref => Token::Deref,
            Token::PlusPlus => Token::PlusPlus,
            Token::MinusMinus => Token::MinusMinus,
            Token::QuestionMark => Token::QuestionMark,
            Token::Mod => Token::Mod,
            Token::BitAnd => Token::BitAnd,
            Token::BitOr => Token::BitOr,
            Token::BitXor => Token::BitXor,
            Token::BitNot => Token::BitNot,
            Token::Shl => Token::Shl,
            Token::Shr => Token::Shr,
        }
    }
}

/// A place in the text: how many characters have been read, and the line
/// and column of the next one.
#[derive(Clone, Copy)]
struct Place {
    pos: usize,
    line: usize,
    col: usize,
}

/// The tokenizer.
pub struct Lexer {
    input: Vec<char>,
    at: Place,
}

impl View for Lexer {
    type V = LexerView;

    closed spec fn view(&self) -> LexerView {
        LexerView {
            input: self.input@,
            pos: self.at.pos as nat,
            line: self.at.line,
            col: self.at.col,
        }
    }
}

/// Whether two tokens are the same.
pub fn same_token(a: &Token, b: &Token) -> (out: bool)
    ensures
        out == (a@ == b@),
{
    match (a, b) {
        (Token::Num(x), Token::Num(y)) => *x == *y,
        (Token::Identifier(x), Token::Identifier(y)) => *x == *y,
        (Token::Return, Token::Return) => true,
        (Token::If, Token::If) => true,
        (Token::Else, Token::Else) => true,
        (Token::While, Token::While) => true,
        (Token::Let, Token::Let) => true,
        (Token::OpenParen, Token::OpenParen) => true,
        (Token::CloseParen, Token::CloseParen) => true,
        (Token::OpenBrace, Token::OpenBrace) => true,
        (Token::CloseBrace, Token::CloseBrace) => true,
        (Token::OpenBracket, Token::OpenBracket) => true,
        (Token::CloseBracket, Token::CloseBracket) => true,
        (Token::Semicolon, Token::Semicolon) => true,
        (Token::Assign, Token::Assign) => true,
        (Token::Add, Token::Add) => true,
        (Token::Sub, Token::Sub) => true,
        (Token::Mul, Token::Mul) => true,
        (Token::Div, Token::Div) => true,
        (Token::Equal, Token::Equal) => true,
        (Token::NotEqual, Token::NotEqual) => true,
        (Token::LessThan, Token::LessThan) => true,
        (Token::GreaterThan, Token::GreaterThan) => true,
        (Token::LessEqual, Token::LessEqual) => true,
        (Token::GreaterEqual, Token::GreaterEqual) => true,
        (Token::Eof, Token::Eof) => true,
        (Token::Unknown(x), Token::Unknown(y)) => *x == *y,
        (Token::True, Token::True) => true,
        (Token::False, Token::False) => true,
        (Token::Char(x), Token::Char(y)) => *x == *y,
        (Token::Fn, Token::Fn) => true,
        (Token::Comma, Token::Comma) => true,
        (Token::And, Token::And) => true,
        (Token::Or, Token::Or) => true,
        (Token::Not, Token::Not) => true,
        (Token::Print, Token::Print) => true,
        (Token::Enum, Token::Enum) => true,
        (Token::StringLiteral(x), Token::StringLiteral(y)) => *x == *y,
        (Token::Sizeof, Token::Sizeof) => true,
        (Token::Colon, Token::Colon) => true,
        (Token::AddressOf, Token::AddressOf) => true,
        (Token::Deref, Token::Deref) => true,
        (Token::PlusPlus, Token::PlusPlus) => true,
        (Token::MinusMinus, Token::MinusMinus) => true,
        (Token::QuestionMark, Token::QuestionMark) => true,
        (Token::Mod, Token::Mod) => true,
        (Token::BitAnd, Token::BitAnd) => true,
        (Token::BitOr, Token::BitOr) => true,
        (Token::BitXor, Token::BitXor) => true,
        (Token::BitNot, Token::BitNot) => true,
        (Token::Shl, Token::Shl) => true,
        (Token::Shr, Token::Shr) => true,
        _ => false,
    }
}

/// Whether a character is white space.
fn is_space_char(c: char) -> (out: bool)
    ensures
        out == is_space(c),
{
    ('\u{0009}' <= c && c <= '\u{000D}') || c == ' ' || c == '\u{0085}' || c == '\u{00A0}' || c
        == '\u{1680}' || ('\u{2000}' <= c && c <= '\u{200A}') || c == '\u{2028}' || c
        == '\u{2029}' || c == '\u{202F}' || c == '\u{205F}' || c == '\u{3000}'
}

/// Whether a character is a decimal digit.
fn is_digit_char(c: char) -> (out: bool)
    ensures
        out == is_digit(c),
{
    '0' <= c && c <= '9'
}

/// Whether a character can stand in a word.
fn is_word_char(c: char) -> (out: bool)
    ensures
        out == is_word_part(c),
{
    ('a' <= c && c <= 'z') || ('A' <= c && c <= 'Z') || c == '_' || ('0' <= c && c <= '9')
}

/// Whether `word` spells `keyword`.
pub fn spells(word: &String, keyword: &str) -> (out: bool)
    ensures
        out == (word@ == keyword@),
{
    let other = String::from_str(keyword);
    *word == other
}

/// The token of a word.
fn token_of_word(word: String) -> (out: Token)
    ensures
        out@ == word_token(word@),
{
    if spells(&word, "return") {
        Token::Return
    } else if spells(&word, "if") {
        Token::If
    } else if spells(&word, "else") {
        Token::Else
    } else if spells(&word, "while") {
        Token::While
    } else if spells(&word, "let") {
        Token::Let
    } else if spells(&word, "true") {
        Token::True
    } else if spells(&word, "false") {
        Token::False
    } else if spells(&word, "fn") {
        Token::Fn
    } else if spells(&word, "print") {
        Token::Print
    } else if spells(&word, "enum") {
        Token::Enum
    } else if spells(&word, "sizeof") {
        Token::Sizeof
    } else {
        Token::Identifier(word)
    }
}

/// The token of a punctuation character that stands alone.
fn token_of_single(c: char) -> (out: Token)
    ensures
        out@ == single_token(c),
{
    if c == '*' {
        Token::Mul
    } else if c == '/' {
        Token::Div
    } else if c == '%' {
        Token::Mod
    } else if c == '^' {
        Token::BitXor
    } else if c == '~' {
        Token::BitNot
    } else if c == '(' {
        Token::OpenParen
    } else if c == ')' {
        Token::CloseParen
    } else if c == '{' {
        Token::OpenBrace
    } else if c == '}' {
        Token::CloseBrace
    } else if c == '[' {
        Token::OpenBracket
    } else if c == ']' {
        Token::CloseBracket
    } else if c == ';' {
        Token::Semicolon
    } else if c == ',' {
        Token::Comma
    } else if c == ':' {
        Token::Colon
    } else if c == '?' {
        Token::QuestionMark
    } else {
        Token::Unknown(c)
    }
}

/// Whether the result of reading a token and the state after it are what
/// the tokenizer's definition says.
pub open spec fn lexed(res: Result<Token, Error>, after: LexerView, meant: Lexed) -> bool {
    &&& meant.0 == after
    &&& match res {
        Ok(token) => meant.1 == Ok::<TokenView, ErrorView>(token@),
        Err(e) => meant.1 == Err::<TokenView, ErrorView>(e@),
    }
}

impl Lexer {
    /// The place reached lies within the text, and line and column are
    /// those of that place.
    #[verifier::type_invariant]
    spec fn within(&self) -> bool {
        placed(self@)
    }

    /// A tokenizer at the start of `input`.
    pub fn new(input: &str) -> (out: Lexer)
        ensures
            out@ == start_of(input@),
            placed(out@),
    {
        let mut chars: Vec<char> = Vec::new();
        for c in it: input.chars()
            invariant
                chars@ == it.seq().take(it.index() as int),
                it.seq() == input@,
        {
            chars.push(c);
        }
        assert(chars@ =~= input@);
        proof {
            lemma_start_placed(chars@);
        }
        Lexer { input: chars, at: Place { pos: 0, line: 1, col: 1 } }
    }

    /// The line and column reached, both counted from 1.
    pub fn get_position(&self) -> (out: (usize, usize))
        ensures
            out == (self@.line, self@.col),
            placed(self@),
    {
        proof {
            use_type_invariant(self);
        }
        (self.at.line, self.at.col)
    }

    /// The current character, if any is left.
    fn current_char(&self) -> (out: Option<char>)
        ensures
            match out {
                Some(c) => more(self@) && c == current(self@),
                None => !more(self@),
            },
    {
        proof {
            use_type_invariant(self);
        }
        if self.at.pos < self.input.len() {
            Some(self.input[self.at.pos])
        } else {
            None
        }
    }

    /// Whether the character after the current one is `expected`.
    fn match_char(&self, expected: char) -> (out: bool)
        ensures
            out == next_is(self@, expected),
    {
        proof {
            use_type_invariant(self);
        }
        if self.at.pos < self.input.len() && self.at.pos + 1 < self.input.len() {
            self.input[self.at.pos + 1] == expected
        } else {
            false
        }
    }

    /// Moves one character on.
    fn advance(&mut self)
        ensures
            final(self)@ == step(old(self)@),
    {
        proof {
            use_type_invariant(&*self);
        }
        if self.at.pos < self.input.len() {
            let newline = self.input[self.at.pos] == '\n';
            let line = if newline && self.at.line < usize::MAX {
                self.at.line + 1
            } else {
                self.at.line
            };
            let col = if newline {
                1
            } else if self.at.col < usize::MAX {
                self.at.col + 1
            } else {
                self.at.col
            };
            proof {
                lemma_step_placed(self@);
            }
            self.at = Place { pos: self.at.pos + 1, line, col };
        }
    }

    /// A failure at the place reached.
    fn fail(&self, kind: ErrorKind) -> (out: Error)
        ensures
            out@ == error_at(self@, kind),
    {
        Error { kind, name: String::new(), line: self.at.line, col: self.at.col }
    }

    /// Skips white space and comments.
    fn skip_whitespace_and_comments(&mut self)
        ensures
            final(self)@ == skip_blank(old(self)@, false),
    {
        let ghost meant = skip_blank(self@, false);
        let mut in_comment = false;
        loop
            invariant
                meant == skip_blank(self@, in_comment),
                meant == skip_blank(old(self)@, false),
            decreases
                    self@.input.len() - self@.pos,
                    (if in_comment {
                        1nat
                    } else {
                        0nat
                    }),
        {
            match self.current_char() {
                None => {
                    return ;
                },
                Some(c) => {
                    if in_comment {
                        if c == '\n' {
                            in_comment = false;
                        } else {
                            self.advance();
                        }
                    } else if is_space_char(c) {
                        self.advance();
                    } else if c == '/' && self.match_char('/') {
                        self.advance();
                        self.advance();
                        in_comment = true;
                    } else {
                        return ;
                    }
                },
            }
        }
    }

    /// Reads a number.
    fn number(&mut self) -> (out: i32)
        ensures
            scan_number(old(self)@, 0) == (final(self)@, out),
    {
        let ghost meant = scan_number(self@, 0);
        let mut value: i32 = 0;
        loop
            invariant
                meant == scan_number(self@, value),
                meant == scan_number(old(self)@, 0),
            decreases self@.input.len() - self@.pos,
        {
            match self.current_char() {
                Some(c) => {
                    if is_digit_char(c) {
                        let d: i32 = (c as u32 - '0' as u32) as i32;
                        value = value.wrapping_mul(10).wrapping_add(d);
                        self.advance();
                    } else {
                        return value;
                    }
                },
                None => {
                    return value;
                },
            }
        }
    }

    /// Reads a word and tells keywords from identifiers.
    fn identifier_or_keyword(&mut self) -> (out: Token)
        ensures
            final(self)@ == scan_word(old(self)@),
            out@ == word_token(
                old(self)@.input.subrange(old(self)@.pos as int, final(self)@.pos as int),
            ),
    {
        let ghost meant = scan_word(self@);
        let start = self.at.pos;
        proof {
            use_type_invariant(&*self);
        }
        loop
            invariant
                meant == scan_word(self@),
                meant == scan_word(old(self)@),
                self@.input == old(self)@.input,
                start <= self@.pos <= self@.input.len(),
                start == old(self)@.pos,
            ensures
                self@ == meant,
            decreases self@.input.len() - self@.pos,
        {
            match self.current_char() {
                Some(c) => {
                    if is_word_char(c) {
                        self.advance();
                    } else {
                        break ;
                    }
                },
                None => {
                    break ;
                },
            }
        }
        let mut word = String::new();
        let mut i: usize = start;
        while i < self.at.pos
            invariant
                start <= i <= self.at.pos <= self.input@.len(),
                word@ == self.input@.subrange(start as int, i as int),
            decreases self.at.pos - i,
        {
            word.push(self.input[i]);
            i += 1;
            assert(word@ =~= self.input@.subrange(start as int, i as int));
        }
        token_of_word(word)
    }

    /// Reads the rest of a string literal.
    fn string(&mut self) -> (res: Result<Token, Error>)
        ensures
            lexed(res, final(self)@, scan_string(old(self)@, Seq::empty())),
    {
        let ghost meant = scan_string(self@, Seq::empty());
        let mut text = String::new();
        loop
            invariant
                meant == scan_string(self@, text@),
                meant == scan_string(old(self)@, Seq::empty()),
            decreases self@.input.len() - self@.pos,
        {
            match self.current_char() {
                None => {
                    return Err(self.fail(ErrorKind::UnterminatedString));
                },
                Some(c) => {
                    if c == '"' {
                        self.advance();
                        return Ok(Token::StringLiteral(text));
                    } else if c == '\\' {
                        self.advance();
                        match self.current_char() {
                            None => {
                                return Err(self.fail(ErrorKind::UnterminatedString));
                            },
                            Some(escaped) => {
                                if escaped == 'n' {
                                    text.push('\n');
                                } else if escaped == 't' {
                                    text.push('\t');
                                } else if escaped == '"' {
                                    text.push('"');
                                } else if escaped == '\\' {
                                    text.push('\\');
                                } else {
                                    return Err(self.fail(ErrorKind::UnknownEscape));
                                }
                                self.advance();
                            },
                        }
                    } else {
                        text.push(c);
                        self.advance();
                    }
                },
            }
        }
    }

    /// Reads the rest of a character literal.
    fn character(&mut self) -> (res: Result<Token, Error>)
        ensures
            lexed(res, final(self)@, scan_char(old(self)@)),
    {
        match self.current_char() {
            None => Err(self.fail(ErrorKind::UnterminatedChar)),
            Some(c) => {
                self.advance();
                match self.current_char() {
                    Some(quote) => {
                        if quote == '\'' {
                            self.advance();
                            Ok(Token::Char(c))
                        } else {
                            Err(self.fail(ErrorKind::UnterminatedChar))
                        }
                    },
                    None => Err(self.fail(ErrorKind::UnterminatedChar)),
                }
            },
        }
    }

    /// Reads an operator of one character, or of two where `second` follows.
    fn operator(&mut self, second: char, long: Token, short: Token) -> (res: Result<Token, Error>)
        ensures
            lexed(res, final(self)@, one_or_two(old(self)@, second, long@, short@)),
    {
        if self.match_char(second) {
            self.advance();
            self.advance();
            Ok(long)
        } else {
            self.advance();
            Ok(short)
        }
    }

    /// The next token.
    pub fn next_token(&mut self) -> (res: Result<Token, Error>)
        ensures
            lexed(res, final(self)@, lex_token(old(self)@)),
            placed(final(self)@),
    {
        reveal(lex_token);
        self.skip_whitespace_and_comments();
        let res = match self.current_char() {
            None => Ok(Token::Eof),
            Some(c) => {
                if c == '"' {
                    self.advance();
                    self.string()
                } else if c == '\'' {
                    self.advance();
                    self.character()
                } else if is_digit_char(c) {
                    let value = self.number();
                    Ok(Token::Num(value))
                } else if ('a' <= c && c <= 'z') || ('A' <= c && c <= 'Z') || c == '_' {
                    Ok(self.identifier_or_keyword())
                } else if c == '+' {
                    self.operator('+', Token::PlusPlus, Token::Add)
                } else if c == '-' {
                    self.operator('-', Token::MinusMinus, Token::Sub)
                } else if c == '=' {
                    self.operator('=', Token::Equal, Token::Assign)
                } else if c == '!' {
                    self.operator('=', Token::NotEqual, Token::Not)
                } else if c == '&' {
                    self.operator('&', Token::And, Token::BitAnd)
                } else if c == '|' {
                    self.operator('|', Token::Or, Token::BitOr)
                } else if c == '<' {
                    if self.match_char('<') {
                        self.advance();
                        self.advance();
                        Ok(Token::Shl)
                    } else {
                        self.operator('=', Token::LessEqual, Token::LessThan)
                    }
                } else if c == '>' {
                    if self.match_char('>') {
                        self.advance();
                        self.advance();
                        Ok(Token::Shr)
                    } else {
                        self.operator('=', Token::GreaterEqual, Token::GreaterThan)
                    }
                } else {
                    self.advance();
                    Ok(token_of_single(c))
                }
            },
        };
        proof {
            use_type_invariant(&*self);
        }
        res
    }
}

} // verus!
