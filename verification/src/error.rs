//! The one failure channel of the interpreter: a kind, the name it concerns
//! where there is one, and the place in the text where the tokenizer or the
//! parser met it.

use vstd::prelude::*;
use vstd::string::StringExecFns;

verus! {

/// What went wrong.
#[derive(Debug, Clone, Copy, PartialEq, Eq, Structural)]
pub enum ErrorKind {
    /// A string literal runs to the end of the input.
    UnterminatedString,
    /// A character literal is empty or lacks its closing quote.
    UnterminatedChar,
    /// A backslash in a string literal is followed by an unknown character.
    UnknownEscape,
    /// A token that can start no expression.
    UnexpectedToken,
    /// `;` was expected.
    ExpectedSemicolon,
    /// `(` was expected.
    ExpectedOpenParen,
    /// `)` was expected.
    ExpectedCloseParen,
    /// `{` was expected.
    ExpectedOpenBrace,
    /// `}` was expected.
    ExpectedCloseBrace,
    /// `]` was expected.
    ExpectedCloseBracket,
    /// `=` was expected.
    ExpectedAssign,
    /// `:` was expected.
    ExpectedColon,
    /// An identifier was expected.
    ExpectedIdentifier,
    /// A number was expected.
    ExpectedNumber,
    /// A comma or the closing delimiter of a list was expected.
    ExpectedSeparator,
    /// The left side of `=` is neither a variable nor an array element.
    InvalidAssignmentTarget,
    /// An identifier stands where a type name must stand.
    UnknownType,
    /// A name is bound in no scope and is no constant.
    VariableNotFound,
    /// A call names no declared function.
    FunctionNotFound,
    /// A call passes another number of arguments than the function has
    /// parameters.
    ArityMismatch,
    /// The operands of a binary operator are of different kinds, or arrays.
    MismatchedTypes,
    /// An operator other than `+`, `==` and `!=` was applied to strings.
    UnsupportedStringOperation,
    /// Division by zero.
    DivisionByZero,
    /// Remainder by zero.
    ModuloByZero,
    /// An array index is negative or not below the array's length.
    IndexOutOfBounds,
    /// An array index is no integer.
    IndexNotInteger,
    /// A value that is no array was indexed.
    NotAnArray,
    /// An element assignment names no variable that holds an array.
    ArrayNotFound,
    /// An element assignment whose array is not a plain variable.
    InvalidArrayTarget,
    /// A cast outside the supported pairs of type and value.
    InvalidCast,
    /// `&` applied to a value that is no integer.
    AddressOfNonInt,
    /// `*` applied to a value that is no integer.
    InvalidDereference,
    /// `sizeof` of an array of arrays.
    NestedArraySizeof,
    /// `++` applied to something that is no variable.
    IncrementTarget,
    /// `--` applied to something that is no variable.
    DecrementTarget,
    /// A qualified enum constant that was never declared.
    EnumVariantNotFound,
    /// `!` applied to an array.
    NotOnArray,
    /// The budget of nested calls and loop iterations, or of nested parser
    /// calls, is used up.
    LimitExceeded,
}

/// A failure of lexing, parsing or evaluation.
#[derive(Debug)]
pub struct Error {
    /// What went wrong.
    pub kind: ErrorKind,
    /// The name that the failure concerns; empty where it concerns none.
    pub name: String,
    /// The line that the tokenizer had reached when it or the parser failed;
    /// 0 for a failure of the evaluator.
    pub line: usize,
    /// The column that the tokenizer had reached when it or the parser
    /// failed; 0 for a failure of the evaluator.
    pub col: usize,
}

/// The mathematical value of an [`Error`].
pub struct ErrorView {
    pub kind: ErrorKind,
    pub name: Seq<char>,
    pub line: nat,
    pub col: nat,
}

impl View for Error {
    type V = ErrorView;

    open spec fn view(&self) -> ErrorView {
        ErrorView {
            kind: self.kind,
            name: self.name@,
            line: self.line as nat,
            col: self.col as nat,
        }
    }
}

/// An evaluation error that concerns no name.
pub open spec fn plain_error(kind: ErrorKind) -> ErrorView {
    ErrorView { kind, name: Seq::empty(), line: 0, col: 0 }
}

/// An evaluation error that concerns `name`.
pub open spec fn named_error(kind: ErrorKind, name: Seq<char>) -> ErrorView {
    ErrorView { kind, name, line: 0, col: 0 }
}

/// The fixed text of each kind of error. For the kinds that concern a name,
/// this is the text before the name.
pub open spec fn kind_text(kind: ErrorKind) -> Seq<char> {
    match kind {
        ErrorKind::UnterminatedString => "Unterminated string literal"@,
        ErrorKind::UnterminatedChar => "Unterminated character literal"@,
        ErrorKind::UnknownEscape => "Unknown escape sequence"@,
        ErrorKind::UnexpectedToken => "Unexpected token"@,
        ErrorKind::ExpectedSemicolon => "Expected ';'"@,
        ErrorKind::ExpectedOpenParen => "Expected '('"@,
        ErrorKind::ExpectedCloseParen => "Expected ')'"@,
        ErrorKind::ExpectedOpenBrace => "Expected '{'"@,
        ErrorKind::ExpectedCloseBrace => "Expected '}'"@,
        ErrorKind::ExpectedCloseBracket => "Expected ']'"@,
        ErrorKind::ExpectedAssign => "Expected '='"@,
        ErrorKind::ExpectedColon => "Expected ':'"@,
        ErrorKind::ExpectedIdentifier => "Expected identifier"@,
        ErrorKind::ExpectedNumber => "Expected number"@,
        ErrorKind::ExpectedSeparator => "Expected ',' or closing delimiter"@,
        ErrorKind::InvalidAssignmentTarget => "Invalid assignment target"@,
        ErrorKind::UnknownType => "Unknown type '"@,
        ErrorKind::VariableNotFound => "Variable '"@,
        ErrorKind::FunctionNotFound => "Function '"@,
        ErrorKind::ArityMismatch => "Wrong number of arguments for function '"@,
        ErrorKind::MismatchedTypes => "Mismatched types for operation"@,
        ErrorKind::UnsupportedStringOperation => "Unsupported string operation"@,
        ErrorKind::DivisionByZero => "Division by zero"@,
        ErrorKind::ModuloByZero => "Modulo by zero"@,
        ErrorKind::IndexOutOfBounds => "Array index out of bounds"@,
        ErrorKind::IndexNotInteger => "Array index must be an integer"@,
        ErrorKind::NotAnArray => "Attempted to index non-array value"@,
        ErrorKind::ArrayNotFound => "Array '"@,
        ErrorKind::InvalidArrayTarget => "Left-hand side must be a variable array reference"@,
        ErrorKind::InvalidCast => "Unsupported cast"@,
        ErrorKind::AddressOfNonInt => "Cannot take address of non-int"@,
        ErrorKind::InvalidDereference => "Invalid pointer dereference"@,
        ErrorKind::NestedArraySizeof => "Nested arrays not supported in sizeof"@,
        ErrorKind::IncrementTarget => "++ requires a variable"@,
        ErrorKind::DecrementTarget => "-- requires a variable"@,
        ErrorKind::EnumVariantNotFound => "Enum variant '"@,
        ErrorKind::NotOnArray => "Cannot apply 'Not' operator to an array"@,
        ErrorKind::LimitExceeded => "Limit exceeded"@,
    }
}

/// Whether the message of this kind of error quotes a name.
pub open spec fn kind_has_name(kind: ErrorKind) -> bool {
    kind == ErrorKind::UnknownType || kind == ErrorKind::VariableNotFound || kind
        == ErrorKind::FunctionNotFound || kind == ErrorKind::ArityMismatch || kind
        == ErrorKind::ArrayNotFound || kind == ErrorKind::EnumVariantNotFound
}

/// The text after the name, for the kinds that quote one.
pub open spec fn kind_suffix(kind: ErrorKind) -> Seq<char> {
    if kind == ErrorKind::UnknownType || kind == ErrorKind::ArityMismatch {
        "'"@
    } else {
        "' not found"@
    }
}

/// The message of an error: the text of its kind and, for the kinds that
/// quote a name, the name in single quotes and what follows it.
pub open spec fn message_text(e: ErrorView) -> Seq<char> {
    if kind_has_name(e.kind) {
        kind_text(e.kind) + e.name + kind_suffix(e.kind)
    } else {
        kind_text(e.kind)
    }
}

/// The fixed text of a kind, as a string slice.
fn kind_str(kind: ErrorKind) -> (out: &'static str)
    ensures
        out@ == kind_text(kind),
{
    match kind {
        ErrorKind::UnterminatedString => "Unterminated string literal",
        ErrorKind::UnterminatedChar => "Unterminated character literal",
        ErrorKind::UnknownEscape => "Unknown escape sequence",
        ErrorKind::UnexpectedToken => "Unexpected token",
        ErrorKind::ExpectedSemicolon => "Expected ';'",
        ErrorKind::ExpectedOpenParen => "Expected '('",
        ErrorKind::ExpectedCloseParen => "Expected ')'",
        ErrorKind::ExpectedOpenBrace => "Expected '{'",
        ErrorKind::ExpectedCloseBrace => "Expected '}'",
        ErrorKind::ExpectedCloseBracket => "Expected ']'",
        ErrorKind::ExpectedAssign => "Expected '='",
        ErrorKind::ExpectedColon => "Expected ':'",
        ErrorKind::ExpectedIdentifier => "Expected identifier",
        ErrorKind::ExpectedNumber => "Expected number",
        ErrorKind::ExpectedSeparator => "Expected ',' or closing delimiter",
        ErrorKind::InvalidAssignmentTarget => "Invalid assignment target",
        ErrorKind::UnknownType => "Unknown type '",
        ErrorKind::VariableNotFound => "Variable '",
        ErrorKind::FunctionNotFound => "Function '",
        ErrorKind::ArityMismatch => "Wrong number of arguments for function '",
        ErrorKind::MismatchedTypes => "Mismatched types for operation",
        ErrorKind::UnsupportedStringOperation => "Unsupported string operation",
        ErrorKind::DivisionByZero => "Division by zero",
        ErrorKind::ModuloByZero => "Modulo by zero",
        ErrorKind::IndexOutOfBounds => "Array index out of bounds",
        ErrorKind::IndexNotInteger => "Array index must be an integer",
        ErrorKind::NotAnArray => "Attempted to index non-array value",
        ErrorKind::ArrayNotFound => "Array '",
        ErrorKind::InvalidArrayTarget => "Left-hand side must be a variable array reference",
        ErrorKind::InvalidCast => "Unsupported cast",
        ErrorKind::AddressOfNonInt => "Cannot take address of non-int",
        ErrorKind::InvalidDereference => "Invalid pointer dereference",
        ErrorKind::NestedArraySizeof => "Nested arrays not supported in sizeof",
        ErrorKind::IncrementTarget => "++ requires a variable",
        ErrorKind::DecrementTarget => "-- requires a variable",
        ErrorKind::EnumVariantNotFound => "Enum variant '",
        ErrorKind::NotOnArray => "Cannot apply 'Not' operator to an array",
        ErrorKind::LimitExceeded => "Limit exceeded",
    }
}

/// Whether the message of this kind quotes a name.
fn has_name(kind: ErrorKind) -> (out: bool)
    ensures
        out == kind_has_name(kind),
{
    match kind {
        ErrorKind::UnknownType => true,
        ErrorKind::VariableNotFound => true,
        ErrorKind::FunctionNotFound => true,
        ErrorKind::ArityMismatch => true,
        ErrorKind::ArrayNotFound => true,
        ErrorKind::EnumVariantNotFound => true,
        _ => false,
    }
}

impl Error {
    /// An evaluation error that concerns no name.
    pub fn plain(kind: ErrorKind) -> (out: Error)
        ensures
            out@ == plain_error(kind),
    {
        Error { kind, name: String::new(), line: 0, col: 0 }
    }

    /// An evaluation error that concerns `name`.
    pub fn named(kind: ErrorKind, name: &String) -> (out: Error)
        ensures
            out@ == named_error(kind, name@),
    {
        Error { kind, name: name.clone(), line: 0, col: 0 }
    }

    /// The message of this error.
    pub fn message(&self) -> (out: String)
        ensures
            out@ == message_text(self@),
    {
        let head = String::from_str(kind_str(self.kind));
        if has_name(self.kind) {
            let suffix = match self.kind {
                ErrorKind::UnknownType => "'",
                ErrorKind::ArityMismatch => "'",
                _ => "' not found",
            };
            head.concat(self.name.as_str()).concat(suffix)
        } else {
            head
        }
    }
}

} // verus!
