//! What the tokenizer computes: the next token of a text as a mathematical
//! function of the place reached, with the laws that hold of it.

use vstd::prelude::*;
use crate::error::{ErrorKind, ErrorView};
use crate::lexer::TokenView;

verus! {

/// The state of the tokenizer: the text, how far it has read, and the line
/// and column of that place.
pub struct LexerView {
    pub input: Seq<char>,
    pub pos: nat,
    pub line: usize,
    pub col: usize,
}

/// The result of reading a token: a token or a failure, and the state after.
pub type Lexed = (LexerView, Result<TokenView, ErrorView>);

/// The state before anything was read: line 1, column 1.
pub open spec fn start_of(input: Seq<char>) -> LexerView {
    LexerView { input, pos: 0, line: 1, col: 1 }
}

/// A failure at the place the tokenizer has reached.
pub open spec fn error_at(l: LexerView, kind: ErrorKind) -> ErrorView {
    ErrorView { kind, name: Seq::empty(), line: l.line as nat, col: l.col as nat }
}

/// A line or column number one higher; it stops at the largest `usize`.
pub open spec fn bump(n: usize) -> usize {
    if n < usize::MAX {
        (n + 1) as usize
    } else {
        n
    }
}

/// Whether anything is left to read.
pub open spec fn more(l: LexerView) -> bool {
    l.pos < l.input.len()
}

/// The character at the place reached; only meaningful while there is one.
pub open spec fn current(l: LexerView) -> char {
    l.input[l.pos as int]
}

/// Whether the character after the current one is `c`.
pub open spec fn next_is(l: LexerView, c: char) -> bool {
    l.pos + 1 < l.input.len() && l.input[l.pos as int + 1] == c
}

/// The state one character further: a newline starts the next line at
/// column 1, any other character moves one column on. At the end of the
/// input nothing changes.
pub open spec fn step(l: LexerView) -> LexerView {
    if more(l) {
        if current(l) == '\n' {
            LexerView { pos: l.pos + 1, line: bump(l.line), col: 1, ..l }
        } else {
            LexerView { pos: l.pos + 1, col: bump(l.col), ..l }
        }
    } else {
        l
    }
}

/// The characters with the Unicode property `White_Space`.
pub open spec fn is_space(c: char) -> bool {
    ('\u{0009}' <= c <= '\u{000D}') || c == ' ' || c == '\u{0085}' || c == '\u{00A0}' || c
        == '\u{1680}' || ('\u{2000}' <= c <= '\u{200A}') || c == '\u{2028}' || c == '\u{2029}' || c
        == '\u{202F}' || c == '\u{205F}' || c == '\u{3000}'
}

/// `0` to `9`.
pub open spec fn is_digit(c: char) -> bool {
    '0' <= c <= '9'
}

/// A letter of ASCII or `_`.
pub open spec fn is_word_start(c: char) -> bool {
    ('a' <= c <= 'z') || ('A' <= c <= 'Z') || c == '_'
}

/// A letter or digit of ASCII or `_`.
pub open spec fn is_word_part(c: char) -> bool {
    is_word_start(c) || is_digit(c)
}

/// The state after the white space and the `//` comments that start at the
/// place reached. A comment runs up to the end of its line.
pub open spec fn skip_blank(l: LexerView, in_comment: bool) -> LexerView
    decreases l.input.len() - l.pos, (if in_comment { 1nat } else { 0nat }),
{
    if !more(l) {
        l
    } else if in_comment {
        if current(l) == '\n' {
            skip_blank(l, false)
        } else {
            skip_blank(step(l), true)
        }
    } else if is_space(current(l)) {
        skip_blank(step(l), false)
    } else if current(l) == '/' && next_is(l, '/') {
        skip_blank(step(step(l)), true)
    } else {
        l
    }
}

/// The value of a digit.
pub open spec fn digit_value(c: char) -> i32 {
    (c as int - '0' as int) as i32
}

/// The state after the digits that start at the place reached, and the
/// number they spell added to ten times `value` for each digit, wrapping
/// around in 32 bits.
pub open spec fn scan_number(l: LexerView, value: i32) -> (LexerView, i32)
    decreases l.input.len() - l.pos,
{
    if more(l) && is_digit(current(l)) {
        scan_number(step(l), value.wrapping_mul(10).wrapping_add(digit_value(current(l))))
    } else {
        (l, value)
    }
}

/// The state after the letters, digits and `_` that start at the place
/// reached.
pub open spec fn scan_word(l: LexerView) -> LexerView
    decreases l.input.len() - l.pos,
{
    if more(l) && is_word_part(current(l)) {
        scan_word(step(l))
    } else {
        l
    }
}

/// The token of a word: a keyword, else an identifier.
pub open spec fn word_token(word: Seq<char>) -> TokenView {
    if word == "return"@ {
        TokenView::Return
    } else if word == "if"@ {
        TokenView::If
    } else if word == "else"@ {
        TokenView::Else
    } else if word == "while"@ {
        TokenView::While
    } else if word == "let"@ {
        TokenView::Let
    } else if word == "true"@ {
        TokenView::True
    } else if word == "false"@ {
        TokenView::False
    } else if word == "fn"@ {
        TokenView::Fn
    } else if word == "print"@ {
        TokenView::Print
    } else if word == "enum"@ {
        TokenView::Enum
    } else if word == "sizeof"@ {
        TokenView::Sizeof
    } else {
        TokenView::Identifier(word)
    }
}

/// What a backslash and `c` stand for in a string literal.
pub open spec fn escape(c: char) -> Option<char> {
    if c == 'n' {
        Some('\n')
    } else if c == 't' {
        Some('\t')
    } else if c == '"' {
        Some('"')
    } else if c == '\\' {
        Some('\\')
    } else {
        None
    }
}

/// The rest of a string literal whose opening quote and the characters
/// `text` have been read.
pub open spec fn scan_string(l: LexerView, text: Seq<char>) -> Lexed
    decreases l.input.len() - l.pos,
{
    if !more(l) {
        (l, Err(error_at(l, ErrorKind::UnterminatedString)))
    } else if current(l) == '"' {
        (step(l), Ok(TokenView::StringLiteral(text)))
    } else if current(l) == '\\' {
        let l1 = step(l);
        if !more(l1) {
            (l1, Err(error_at(l1, ErrorKind::UnterminatedString)))
        } else {
            match escape(current(l1)) {
                Some(c) => scan_string(step(l1), text.push(c)),
                None => (l1, Err(error_at(l1, ErrorKind::UnknownEscape))),
            }
        }
    } else {
        scan_string(step(l), text.push(current(l)))
    }
}

/// The rest of a character literal whose opening quote has been read: one
/// character and the closing quote.
pub open spec fn scan_char(l: LexerView) -> Lexed {
    if !more(l) {
        (l, Err(error_at(l, ErrorKind::UnterminatedChar)))
    } else {
        let l1 = step(l);
        if more(l1) && current(l1) == '\'' {
            (step(l1), Ok(TokenView::Char(current(l))))
        } else {
            (l1, Err(error_at(l1, ErrorKind::UnterminatedChar)))
        }
    }
}

/// The state after the `second` that follows the current character, and
/// `long`; or the state after the current character, and `short`.
pub open spec fn one_or_two(
    l: LexerView,
    second: char,
    long: TokenView,
    short: TokenView,
) -> Lexed {
    if next_is(l, second) {
        (step(step(l)), Ok(long))
    } else {
        (step(l), Ok(short))
    }
}

/// The token of a punctuation character that stands alone.
pub open spec fn single_token(c: char) -> TokenView {
    if c == '*' {
        TokenView::Mul
    } else if c == '/' {
        TokenView::Div
    } else if c == '%' {
        TokenView::Mod
    } else if c == '^' {
        TokenView::BitXor
    } else if c == '~' {
        TokenView::BitNot
    } else if c == '(' {
        TokenView::OpenParen
    } else if c == ')' {
        TokenView::CloseParen
    } else if c == '{' {
        TokenView::OpenBrace
    } else if c == '}' {
        TokenView::CloseBrace
    } else if c == '[' {
        TokenView::OpenBracket
    } else if c == ']' {
        TokenView::CloseBracket
    } else if c == ';' {
        TokenView::Semicolon
    } else if c == ',' {
        TokenView::Comma
    } else if c == ':' {
        TokenView::Colon
    } else if c == '?' {
        TokenView::QuestionMark
    } else {
        TokenView::Unknown(c)
    }
}

/// The token that starts at the place reached, which is at no white space
/// and at no comment: `Eof` at the end of the input; a string or character
/// literal; a number; a word; else the longest operator that fits, and
/// `Unknown` for a character that starts none.
pub open spec fn scan_token(l: LexerView) -> Lexed {
    if !more(l) {
        (l, Ok(TokenView::Eof))
    } else {
        let c = current(l);
        if c == '"' {
            scan_string(step(l), Seq::empty())
        } else if c == '\'' {
            scan_char(step(l))
        } else if is_digit(c) {
            let (end, value) = scan_number(l, 0);
            (end, Ok(TokenView::Num(value)))
        } else if is_word_start(c) {
            let end = scan_word(l);
            (end, Ok(word_token(l.input.subrange(l.pos as int, end.pos as int))))
        } else if c == '+' {
            one_or_two(l, '+', TokenView::PlusPlus, TokenView::Add)
        } else if c == '-' {
            one_or_two(l, '-', TokenView::MinusMinus, TokenView::Sub)
        } else if c == '=' {
            one_or_two(l, '=', TokenView::Equal, TokenView::Assign)
        } else if c == '!' {
            one_or_two(l, '=', TokenView::NotEqual, TokenView::Not)
        } else if c == '&' {
            one_or_two(l, '&', TokenView::And, TokenView::BitAnd)
        } else if c == '|' {
            one_or_two(l, '|', TokenView::Or, TokenView::BitOr)
        } else if c == '<' {
            if next_is(l, '<') {
                (step(step(l)), Ok(TokenView::Shl))
            } else {
                one_or_two(l, '=', TokenView::LessEqual, TokenView::LessThan)
            }
        } else if c == '>' {
            if next_is(l, '>') {
                (step(step(l)), Ok(TokenView::Shr))
            } else {
                one_or_two(l, '=', TokenView::GreaterEqual, TokenView::GreaterThan)
            }
        } else {
            (step(l), Ok(single_token(c)))
        }
    }
}

/// The next token: the one that follows the white space and the comments
/// at the place reached.
#[verifier::opaque]
pub open spec fn lex_token(l: LexerView) -> Lexed {
    scan_token(skip_blank(l, false))
}

// ---------------------------------------------------------------------------
// Line and column
// ---------------------------------------------------------------------------
/// The number of newlines in a text.
pub open spec fn newlines(text: Seq<char>) -> nat
    decreases text.len(),
{
    if text.len() == 0 {
        0
    } else {
        newlines(text.drop_last()) + if text.last() == '\n' {
            1nat
        } else {
            0nat
        }
    }
}

/// Where the last line of a text starts: after its last newline, or at 0.
pub open spec fn line_start(text: Seq<char>) -> nat
    decreases text.len(),
{
    if text.len() == 0 {
        0
    } else if text.last() == '\n' {
        text.len()
    } else {
        line_start(text.drop_last())
    }
}

/// A number as a `usize`, the largest `usize` standing for all beyond it.
pub open spec fn capped(n: int) -> usize {
    if n <= usize::MAX {
        n as usize
    } else {
        usize::MAX
    }
}

/// Whether line and column are those of the place reached: the line is one
/// more than the newlines read, the column one more than the characters
/// read since the last of them.
pub open spec fn placed(l: LexerView) -> bool {
    let read = l.input.take(l.pos as int);
    &&& l.pos <= l.input.len()
    &&& l.line == capped(1 + newlines(read) as int)
    &&& l.col == capped(1 + read.len() - line_start(read))
}

/// A line starts within its text.
pub proof fn lemma_line_start(text: Seq<char>)
    ensures
        line_start(text) <= text.len(),
    decreases text.len(),
{
    if text.len() > 0 && text.last() != '\n' {
        lemma_line_start(text.drop_last());
    }
}

/// Line and column are right at the start of a text.
pub proof fn lemma_start_placed(input: Seq<char>)
    ensures
        placed(start_of(input)),
{
    assert(input.take(0).len() == 0);
}

/// One character further, line and column are still right.
pub proof fn lemma_step_placed(l: LexerView)
    requires
        placed(l),
    ensures
        placed(step(l)),
{
    if more(l) {
        let read = l.input.take(l.pos as int);
        let next = l.input.take(l.pos as int + 1);
        assert(next.drop_last() =~= read);
        assert(next.last() == current(l));
        lemma_line_start(read);
    }
}

/// After white space and comments, line and column are still right.
pub proof fn lemma_skip_blank_placed(l: LexerView, in_comment: bool)
    requires
        placed(l),
    ensures
        placed(skip_blank(l, in_comment)),
    decreases l.input.len() - l.pos, (if in_comment { 1nat } else { 0nat }),
{
    if more(l) {
        lemma_step_placed(l);
        if in_comment {
            if current(l) == '\n' {
                lemma_skip_blank_placed(l, false);
            } else {
                lemma_skip_blank_placed(step(l), true);
            }
        } else if is_space(current(l)) {
            lemma_skip_blank_placed(step(l), false);
        } else if current(l) == '/' && next_is(l, '/') {
            lemma_step_placed(step(l));
            lemma_skip_blank_placed(step(step(l)), true);
        }
    }
}

/// After a number, line and column are still right.
pub proof fn lemma_scan_number_placed(l: LexerView, value: i32)
    requires
        placed(l),
    ensures
        placed(scan_number(l, value).0),
    decreases l.input.len() - l.pos,
{
    if more(l) && is_digit(current(l)) {
        lemma_step_placed(l);
        lemma_scan_number_placed(
            step(l),
            value.wrapping_mul(10).wrapping_add(digit_value(current(l))),
        );
    }
}

/// After a word, line and column are still right.
pub proof fn lemma_scan_word_placed(l: LexerView)
    requires
        placed(l),
    ensures
        placed(scan_word(l)),
    decreases l.input.len() - l.pos,
{
    if more(l) && is_word_part(current(l)) {
        lemma_step_placed(l);
        lemma_scan_word_placed(step(l));
    }
}

/// After a string literal, line and column are still right.
pub proof fn lemma_scan_string_placed(l: LexerView, text: Seq<char>)
    requires
        placed(l),
    ensures
        placed(scan_string(l, text).0),
    decreases l.input.len() - l.pos,
{
    if more(l) {
        lemma_step_placed(l);
        if current(l) != '"' {
            if current(l) == '\\' {
                let l1 = step(l);
                if more(l1) {
                    lemma_step_placed(l1);
                    if let Some(c) = escape(current(l1)) {
                        lemma_scan_string_placed(step(l1), text.push(c));
                    }
                }
            } else {
                lemma_scan_string_placed(step(l), text.push(current(l)));
            }
        }
    }
}

/// After every token, and after every failure, line and column are those
/// of the place reached.
pub proof fn lemma_lex_token_placed(l: LexerView)
    requires
        placed(l),
    ensures
        placed(lex_token(l).0),
{
    reveal(lex_token);
    let start = skip_blank(l, false);
    lemma_skip_blank_placed(l, false);
    if more(start) {
        let c = current(start);
        lemma_step_placed(start);
        lemma_step_placed(step(start));
        lemma_step_placed(step(step(start)));
        if c == '"' {
            lemma_scan_string_placed(step(start), Seq::empty());
        } else if is_digit(c) {
            lemma_scan_number_placed(start, 0);
        } else if is_word_start(c) {
            lemma_scan_word_placed(start);
        }
    }
}

// ---------------------------------------------------------------------------
// The token stream is finite
// ---------------------------------------------------------------------------
/// Whether `after` reads the same text as `before` from a place that is no
/// earlier and still within the text.
pub open spec fn further(before: LexerView, after: LexerView) -> bool {
    &&& after.input == before.input
    &&& before.pos <= after.pos <= before.input.len()
}

/// Skipping white space and comments never moves backwards.
pub proof fn lemma_skip_blank_further(l: LexerView, in_comment: bool)
    requires
        l.pos <= l.input.len(),
    ensures
        further(l, skip_blank(l, in_comment)),
    decreases l.input.len() - l.pos, (if in_comment { 1nat } else { 0nat }),
{
    if more(l) {
        if in_comment {
            if current(l) == '\n' {
                lemma_skip_blank_further(l, false);
            } else {
                lemma_skip_blank_further(step(l), true);
            }
        } else if is_space(current(l)) {
            lemma_skip_blank_further(step(l), false);
        } else if current(l) == '/' && next_is(l, '/') {
            lemma_skip_blank_further(step(step(l)), true);
        }
    }
}

/// Reading digits never moves backwards, and moves forwards from a digit.
pub proof fn lemma_scan_number_further(l: LexerView, value: i32)
    requires
        l.pos <= l.input.len(),
    ensures
        further(l, scan_number(l, value).0),
        more(l) && is_digit(current(l)) ==> l.pos < scan_number(l, value).0.pos,
    decreases l.input.len() - l.pos,
{
    if more(l) && is_digit(current(l)) {
        lemma_scan_number_further(
            step(l),
            value.wrapping_mul(10).wrapping_add(digit_value(current(l))),
        );
    }
}

/// Reading a word never moves backwards, and moves forwards from a
/// character of a word.
pub proof fn lemma_scan_word_further(l: LexerView)
    requires
        l.pos <= l.input.len(),
    ensures
        further(l, scan_word(l)),
        more(l) && is_word_part(current(l)) ==> l.pos < scan_word(l).pos,
    decreases l.input.len() - l.pos,
{
    if more(l) && is_word_part(current(l)) {
        lemma_scan_word_further(step(l));
    }
}

/// Reading a string literal never moves backwards, and yields a string
/// literal where it yields a token.
pub proof fn lemma_scan_string_further(l: LexerView, text: Seq<char>)
    requires
        l.pos <= l.input.len(),
    ensures
        further(l, scan_string(l, text).0),
        scan_string(l, text).1 matches Ok(token) ==> token is StringLiteral,
        scan_string(l, text).1 matches Err(e) ==> e.kind != ErrorKind::LimitExceeded,
    decreases l.input.len() - l.pos,
{
    if more(l) && current(l) != '"' {
        if current(l) == '\\' {
            let l1 = step(l);
            if more(l1) {
                if let Some(c) = escape(current(l1)) {
                    lemma_scan_string_further(step(l1), text.push(c));
                }
            }
        } else {
            lemma_scan_string_further(step(l), text.push(current(l)));
        }
    }
}

/// The token stream is finite: reading a token keeps the text and never
/// moves backwards; every token but `Eof` moves forwards; and `Eof` comes
/// at the end of the text only, where it comes again for ever. The
/// tokenizer has no budget to use up.
pub proof fn lemma_lex_token_further(l: LexerView)
    requires
        l.pos <= l.input.len(),
    ensures
        further(l, lex_token(l).0),
        lex_token(l).1 matches Err(e) ==> e.kind != ErrorKind::LimitExceeded,
        lex_token(l).1 matches Ok(token) && token != TokenView::Eof ==> l.pos < lex_token(l).0.pos,
        lex_token(l).1 == Ok::<TokenView, ErrorView>(TokenView::Eof) ==> {
            &&& lex_token(l).0.pos == l.input.len()
            &&& lex_token(lex_token(l).0) == lex_token(l)
        },
{
    reveal(lex_token);
    let start = skip_blank(l, false);
    lemma_skip_blank_further(l, false);
    if !more(start) {
        assert(skip_blank(start, false) == start);
    }
    if more(start) {
        let c = current(start);
        if c == '"' {
            lemma_scan_string_further(step(start), Seq::empty());
        } else if is_digit(c) {
            lemma_scan_number_further(start, 0);
        } else if is_word_start(c) {
            lemma_scan_word_further(start);
            let end = scan_word(start);
            lemma_word_token_is_no_eof(start.input.subrange(start.pos as int, end.pos as int));
        }
    }
}

/// No word is the token `Eof`.
pub proof fn lemma_word_token_is_no_eof(word: Seq<char>)
    ensures
        word_token(word) != TokenView::Eof,
{
}

} // verus!
