//! The grammar: what the parser makes of a stream of tokens, as
//! mathematical functions from the state of the token stream to a syntax
//! tree and the state after it.
//!
//! Every function here takes a budget and hands one unit less to each
//! function it uses; with no unit left it fails with `LimitExceeded`. The
//! budget bounds how deep the parser's calls nest and how long its lists
//! grow, which makes each of these functions total.

use vstd::prelude::*;
use crate::ast::{BinOp, ExprView, StmtView, Type, UnOp};
use crate::error::{ErrorKind, ErrorView};
use crate::lexer::{TokenView};
use crate::scanning::{lex_token, LexerView};

verus! {

/// The token stream: the tokenizer and the one token read ahead.
pub struct CursorView {
    pub lexer: LexerView,
    pub current: TokenView,
}

/// The parser: the token stream and the enum constants declared so far.
pub struct ParserView {
    pub cursor: CursorView,
    pub constants: Map<Seq<char>, i32>,
}

/// A step of the token stream.
pub type Moved = Result<CursorView, ErrorView>;

/// A parsed expression and the token stream after it.
pub type ParsedExpr = Result<(ExprView, CursorView), ErrorView>;

/// A parsed list of expressions and the token stream after it.
pub type ParsedExprs = Result<(Seq<ExprView>, CursorView), ErrorView>;

/// A parsed type, if one was there, and the token stream after it.
pub type ParsedType = Result<(Option<Type>, CursorView), ErrorView>;

/// A parsed statement and the parser after it.
pub type ParsedStmt = Result<(StmtView, ParserView), ErrorView>;

/// A parsed list of statements and the parser after it.
pub type ParsedStmts = Result<(Seq<StmtView>, ParserView), ErrorView>;

/// A failure at the place the tokenizer has reached.
pub open spec fn fail(c: CursorView, kind: ErrorKind) -> ErrorView {
    ErrorView { kind, name: Seq::empty(), line: c.lexer.line as nat, col: c.lexer.col as nat }
}

/// A failure that concerns a name.
pub open spec fn fail_named(c: CursorView, kind: ErrorKind, name: Seq<char>) -> ErrorView {
    ErrorView { kind, name, line: c.lexer.line as nat, col: c.lexer.col as nat }
}

/// The token stream one token further.
pub open spec fn advance(c: CursorView) -> Moved {
    let (lexer, token) = lex_token(c.lexer);
    match token {
        Ok(current) => Ok(CursorView { lexer, current }),
        Err(e) => Err(e),
    }
}

/// The token stream at the start of a text.
pub open spec fn open_cursor(lexer: LexerView) -> Moved {
    advance(CursorView { lexer, current: TokenView::Eof })
}

/// The token stream after `token`, which must be the current one.
pub open spec fn expect(c: CursorView, token: TokenView, kind: ErrorKind) -> Moved {
    if c.current == token {
        advance(c)
    } else {
        Err(fail(c, kind))
    }
}

/// The identifier that is the current token, and the token stream after it.
pub open spec fn expect_identifier(c: CursorView) -> Result<(Seq<char>, CursorView), ErrorView> {
    match c.current {
        TokenView::Identifier(name) => match advance(c) {
            Ok(c1) => Ok((name, c1)),
            Err(e) => Err(e),
        },
        _ => Err(fail(c, ErrorKind::ExpectedIdentifier)),
    }
}

/// The type that a type name stands for: `bool` is `char`, and `str` is a
/// pointer to `char`.
pub open spec fn named_type(name: Seq<char>) -> Option<Type> {
    if name == "int"@ {
        Some(Type::Int)
    } else if name == "char"@ {
        Some(Type::Char)
    } else if name == "bool"@ {
        Some(Type::Char)
    } else if name == "str"@ {
        Some(Type::Pointer(Box::new(Type::Char)))
    } else if name == "void"@ {
        Some(Type::Void)
    } else {
        None
    }
}

/// Whether a token can start a type: a type name or `*`.
pub open spec fn starts_type(token: TokenView) -> bool {
    match token {
        TokenView::Identifier(name) => named_type(name) is Some,
        TokenView::Mul => true,
        _ => false,
    }
}

/// The binary operator that a token is on a level of precedence. The levels
/// bind more tightly as they go up: `||`; `&&`; `|`; `^`; `&`; comparisons;
/// shifts; `+ -`; `* / %`.
pub open spec fn binary_op(level: u8, token: TokenView) -> Option<BinOp> {
    match (level, token) {
        (0, TokenView::Or) => Some(BinOp::Or),
        (1, TokenView::And) => Some(BinOp::And),
        (2, TokenView::BitOr) => Some(BinOp::BitOr),
        (3, TokenView::BitXor) => Some(BinOp::BitXor),
        (4, TokenView::BitAnd) => Some(BinOp::BitAnd),
        (5, TokenView::Equal) => Some(BinOp::Equal),
        (5, TokenView::NotEqual) => Some(BinOp::NotEqual),
        (5, TokenView::LessThan) => Some(BinOp::LessThan),
        (5, TokenView::GreaterThan) => Some(BinOp::GreaterThan),
        (5, TokenView::LessEqual) => Some(BinOp::LessEqual),
        (5, TokenView::GreaterEqual) => Some(BinOp::GreaterEqual),
        (6, TokenView::Shl) => Some(BinOp::Shl),
        (6, TokenView::Shr) => Some(BinOp::Shr),
        (7, TokenView::Add) => Some(BinOp::Add),
        (7, TokenView::Sub) => Some(BinOp::Sub),
        (8, TokenView::Mul) => Some(BinOp::Mul),
        (8, TokenView::Div) => Some(BinOp::Div),
        (8, TokenView::Mod) => Some(BinOp::Mod),
        _ => None,
    }
}

/// The number of levels of binary operators.
pub open spec fn binary_levels() -> u8 {
    9
}

/// The prefix operator that a token is, applied to `operand`.
pub open spec fn prefixed(token: TokenView, operand: ExprView) -> Option<ExprView> {
    match token {
        TokenView::Not => Some(ExprView::UnaryOp { op: UnOp::Not, expr: Box::new(operand) }),
        TokenView::AddressOf => Some(ExprView::AddressOf(Box::new(operand))),
        TokenView::BitAnd => Some(ExprView::AddressOf(Box::new(operand))),
        TokenView::Deref => Some(ExprView::Deref(Box::new(operand))),
        TokenView::Mul => Some(ExprView::Deref(Box::new(operand))),
        TokenView::PlusPlus => Some(ExprView::PreInc(Box::new(operand))),
        TokenView::MinusMinus => Some(ExprView::PreDec(Box::new(operand))),
        _ => None,
    }
}

/// Whether a token is a prefix operator.
pub open spec fn is_prefix(token: TokenView) -> bool {
    prefixed(token, ExprView::Number(0)) is Some
}

/// The literal that a token is.
pub open spec fn literal(token: TokenView) -> Option<ExprView> {
    match token {
        TokenView::Num(n) => Some(ExprView::Number(n)),
        TokenView::True => Some(ExprView::Boolean(true)),
        TokenView::False => Some(ExprView::Boolean(false)),
        TokenView::Char(c) => Some(ExprView::Char(c)),
        TokenView::StringLiteral(s) => Some(ExprView::StringLiteral(s)),
        _ => None,
    }
}

/// Whether an expression can stand on the left of `=`.
pub open spec fn assignable(e: ExprView) -> bool {
    e is Variable || e is ArrayIndex
}

// ---------------------------------------------------------------------------
// Types
// ---------------------------------------------------------------------------
/// A type: a type name followed by any number of array lengths in square
/// brackets, or `*` and a type. Where the current token can start no type,
/// there is none and nothing is read.
pub open spec fn parse_type(c: CursorView, budget: nat) -> ParsedType
    decreases budget,
{
    if budget == 0 {
        Err(fail(c, ErrorKind::LimitExceeded))
    } else {
        match c.current {
            TokenView::Identifier(name) => match named_type(name) {
                Some(base) => match advance(c) {
                    Ok(c1) => array_suffix(c1, base, (budget - 1) as nat),
                    Err(e) => Err(e),
                },
                None => Err(fail_named(c, ErrorKind::UnknownType, name)),
            },
            TokenView::Mul => match advance(c) {
                Ok(c1) => match parse_type(c1, (budget - 1) as nat) {
                    Ok((Some(inner), c2)) => Ok((Some(Type::Pointer(Box::new(inner))), c2)),
                    Ok((None, c2)) => Ok((None, c2)),
                    Err(e) => Err(e),
                },
                Err(e) => Err(e),
            },
            _ => Ok((None, c)),
        }
    }
}

/// The array lengths after a type name: each `[n]` makes an array of what
/// stands before it.
pub open spec fn array_suffix(c: CursorView, base: Type, budget: nat) -> ParsedType
    decreases budget,
{
    if budget == 0 {
        Err(fail(c, ErrorKind::LimitExceeded))
    } else if c.current == TokenView::OpenBracket {
        match advance(c) {
            Ok(c1) => match c1.current {
                TokenView::Num(n) => match advance(c1) {
                    Ok(c2) => match expect(
                        c2,
                        TokenView::CloseBracket,
                        ErrorKind::ExpectedCloseBracket,
                    ) {
                        Ok(c3) => array_suffix(
                            c3,
                            Type::Array(Box::new(base), n as usize),
                            (budget - 1) as nat,
                        ),
                        Err(e) => Err(e),
                    },
                    Err(e) => Err(e),
                },
                _ => Err(fail(c1, ErrorKind::ExpectedNumber)),
            },
            Err(e) => Err(e),
        }
    } else {
        Ok((Some(base), c))
    }
}

// ---------------------------------------------------------------------------
// Expressions
// ---------------------------------------------------------------------------
/// An expression: an assignment, or a ternary `condition ? then : else`
/// whose condition is an assignment and whose branches are expressions.
pub open spec fn parse_expression(c: CursorView, budget: nat) -> ParsedExpr
    decreases budget,
{
    if budget == 0 {
        Err(fail(c, ErrorKind::LimitExceeded))
    } else {
        let b = (budget - 1) as nat;
        match parse_assignment(c, b) {
            Ok((condition, c1)) => if c1.current == TokenView::QuestionMark {
                match advance(c1) {
                    Ok(c2) => match parse_expression(c2, b) {
                        Ok((then_branch, c3)) => match expect(
                            c3,
                            TokenView::Colon,
                            ErrorKind::ExpectedColon,
                        ) {
                            Ok(c4) => match parse_expression(c4, b) {
                                Ok((else_branch, c5)) => Ok(
                                    (
                                        ExprView::Ternary {
                                            condition: Box::new(condition),
                                            then_branch: Box::new(then_branch),
                                            else_branch: Box::new(else_branch),
                                        },
                                        c5,
                                    ),
                                ),
                                Err(e) => Err(e),
                            },
                            Err(e) => Err(e),
                        },
                        Err(e) => Err(e),
                    },
                    Err(e) => Err(e),
                }
            } else {
                Ok((condition, c1))
            },
            Err(e) => Err(e),
        }
    }
}

/// An assignment: a chain of binary operators, or such a chain that is a
/// variable or an array element, `=`, and an assignment. `=` associates to
/// the right.
pub open spec fn parse_assignment(c: CursorView, budget: nat) -> ParsedExpr
    decreases budget,
{
    if budget == 0 {
        Err(fail(c, ErrorKind::LimitExceeded))
    } else {
        let b = (budget - 1) as nat;
        match parse_binary(c, 0, b) {
            Ok((left, c1)) => if c1.current == TokenView::Assign {
                match advance(c1) {
                    Ok(c2) => match parse_assignment(c2, b) {
                        Ok((right, c3)) => if assignable(left) {
                            Ok(
                                (
                                    ExprView::BinaryOp {
                                        op: BinOp::Assign,
                                        left: Box::new(left),
                                        right: Box::new(right),
                                    },
                                    c3,
                                ),
                            )
                        } else {
                            Err(fail(c3, ErrorKind::InvalidAssignmentTarget))
                        },
                        Err(e) => Err(e),
                    },
                    Err(e) => Err(e),
                }
            } else {
                Ok((left, c1))
            },
            Err(e) => Err(e),
        }
    }
}

/// A chain of the binary operators of one level: operands of the next
/// level, joined from left to right. Above the last level stands a unary
/// expression.
pub open spec fn parse_binary(c: CursorView, level: u8, budget: nat) -> ParsedExpr
    decreases budget,
{
    if budget == 0 {
        Err(fail(c, ErrorKind::LimitExceeded))
    } else if level >= binary_levels() {
        parse_unary(c, (budget - 1) as nat)
    } else {
        match parse_binary(c, (level + 1) as u8, (budget - 1) as nat) {
            Ok((left, c1)) => binary_rest(c1, level, left, (budget - 1) as nat),
            Err(e) => Err(e),
        }
    }
}

/// The rest of a chain of binary operators whose operands so far make up
/// `left`.
pub open spec fn binary_rest(c: CursorView, level: u8, left: ExprView, budget: nat) -> ParsedExpr
    decreases budget,
{
    if budget == 0 {
        Err(fail(c, ErrorKind::LimitExceeded))
    } else {
        match binary_op(level, c.current) {
            Some(op) => match advance(c) {
                Ok(c1) => match parse_binary(c1, (level + 1) as u8, (budget - 1) as nat) {
                    Ok((right, c2)) => binary_rest(
                        c2,
                        level,
                        ExprView::BinaryOp { op, left: Box::new(left), right: Box::new(right) },
                        (budget - 1) as nat,
                    ),
                    Err(e) => Err(e),
                },
                Err(e) => Err(e),
            },
            None => Ok((left, c)),
        }
    }
}

/// A unary expression: a prefix operator and a unary expression, or a
/// primary expression; and after either any number of `++` and `--`.
pub open spec fn parse_unary(c: CursorView, budget: nat) -> ParsedExpr
    decreases budget,
{
    if budget == 0 {
        Err(fail(c, ErrorKind::LimitExceeded))
    } else {
        let b = (budget - 1) as nat;
        if is_prefix(c.current) {
            match advance(c) {
                Ok(c1) => match parse_unary(c1, b) {
                    Ok((operand, c2)) => parse_postfix(
                        c2,
                        prefixed(c.current, operand).unwrap(),
                        b,
                    ),
                    Err(e) => Err(e),
                },
                Err(e) => Err(e),
            }
        } else {
            match parse_primary(c, b) {
                Ok((e, c1)) => parse_postfix(c1, e, b),
                Err(e) => Err(e),
            }
        }
    }
}

/// The `++` and `--` that follow an expression, each applied to what stands
/// before it.
pub open spec fn parse_postfix(c: CursorView, e: ExprView, budget: nat) -> ParsedExpr
    decreases budget,
{
    if budget == 0 {
        Err(fail(c, ErrorKind::LimitExceeded))
    } else if c.current == TokenView::PlusPlus {
        match advance(c) {
            Ok(c1) => parse_postfix(c1, ExprView::PostInc(Box::new(e)), (budget - 1) as nat),
            Err(e) => Err(e),
        }
    } else if c.current == TokenView::MinusMinus {
        match advance(c) {
            Ok(c1) => parse_postfix(c1, ExprView::PostDec(Box::new(e)), (budget - 1) as nat),
            Err(e) => Err(e),
        }
    } else {
        Ok((e, c))
    }
}

/// The elements of an array literal up to the closing token, which is not
/// read: expressions separated by commas; a comma may follow the last.
pub open spec fn parse_elements(
    c: CursorView,
    close: TokenView,
    done: Seq<ExprView>,
    budget: nat,
) -> ParsedExprs
    decreases budget,
{
    if budget == 0 {
        Err(fail(c, ErrorKind::LimitExceeded))
    } else if c.current == close {
        Ok((done, c))
    } else {
        match parse_expression(c, (budget - 1) as nat) {
            Ok((e, c1)) => if c1.current == TokenView::Comma {
                match advance(c1) {
                    Ok(c2) => parse_elements(c2, close, done.push(e), (budget - 1) as nat),
                    Err(e) => Err(e),
                }
            } else {
                Ok((done.push(e), c1))
            },
            Err(e) => Err(e),
        }
    }
}

/// The arguments of a call up to the closing parenthesis, which is not
/// read: expressions, each followed by a comma or by nothing.
pub open spec fn parse_arguments(c: CursorView, done: Seq<ExprView>, budget: nat) -> ParsedExprs
    decreases budget,
{
    if budget == 0 {
        Err(fail(c, ErrorKind::LimitExceeded))
    } else if c.current == TokenView::CloseParen {
        Ok((done, c))
    } else {
        match parse_expression(c, (budget - 1) as nat) {
            Ok((e, c1)) => if c1.current == TokenView::Comma {
                match advance(c1) {
                    Ok(c2) => parse_arguments(c2, done.push(e), (budget - 1) as nat),
                    Err(e) => Err(e),
                }
            } else {
                parse_arguments(c1, done.push(e), (budget - 1) as nat)
            },
            Err(e) => Err(e),
        }
    }
}

/// An array literal whose opening token has been read.
pub open spec fn parse_array(
    c: CursorView,
    close: TokenView,
    kind: ErrorKind,
    budget: nat,
) -> ParsedExpr
    decreases budget,
{
    if budget == 0 {
        Err(fail(c, ErrorKind::LimitExceeded))
    } else {
        match parse_elements(c, close, Seq::empty(), (budget - 1) as nat) {
            Ok((items, c1)) => match expect(c1, close, kind) {
                Ok(c2) => Ok((ExprView::ArrayLiteral(items), c2)),
                Err(e) => Err(e),
            },
            Err(e) => Err(e),
        }
    }
}

/// What follows an identifier that starts a primary expression: the
/// arguments of a call in parentheses, an index in square brackets, or
/// nothing.
pub open spec fn parse_named(c: CursorView, name: Seq<char>, budget: nat) -> ParsedExpr
    decreases budget,
{
    if budget == 0 {
        Err(fail(c, ErrorKind::LimitExceeded))
    } else {
        let b = (budget - 1) as nat;
        match c.current {
            TokenView::OpenParen => match advance(c) {
                Ok(c1) => match parse_arguments(c1, Seq::empty(), b) {
                    Ok((args, c2)) => match expect(
                        c2,
                        TokenView::CloseParen,
                        ErrorKind::ExpectedCloseParen,
                    ) {
                        Ok(c3) => Ok((ExprView::FunctionCall { name, args }, c3)),
                        Err(e) => Err(e),
                    },
                    Err(e) => Err(e),
                },
                Err(e) => Err(e),
            },
            TokenView::OpenBracket => match advance(c) {
                Ok(c1) => match parse_expression(c1, b) {
                    Ok((index, c2)) => match expect(
                        c2,
                        TokenView::CloseBracket,
                        ErrorKind::ExpectedCloseBracket,
                    ) {
                        Ok(c3) => Ok(
                            (
                                ExprView::ArrayIndex(
                                    Box::new(ExprView::Variable(name)),
                                    Box::new(index),
                                ),
                                c3,
                            ),
                        ),
                        Err(e) => Err(e),
                    },
                    Err(e) => Err(e),
                },
                Err(e) => Err(e),
            },
            _ => Ok((ExprView::Variable(name), c)),
        }
    }
}

/// What follows an opening parenthesis that starts a primary expression:
/// where the next token can start a type, a type, `)` and the unary
/// expression that is cast; else an expression and `)`.
pub open spec fn parse_parenthesized(c: CursorView, budget: nat) -> ParsedExpr
    decreases budget,
{
    if budget == 0 {
        Err(fail(c, ErrorKind::LimitExceeded))
    } else {
        let b = (budget - 1) as nat;
        if starts_type(c.current) {
            match parse_type(c, b) {
                Ok((Some(t), c1)) => match expect(
                    c1,
                    TokenView::CloseParen,
                    ErrorKind::ExpectedCloseParen,
                ) {
                    Ok(c2) => match parse_unary(c2, b) {
                        Ok((e, c3)) => Ok((ExprView::Cast(t, Box::new(e)), c3)),
                        Err(e) => Err(e),
                    },
                    Err(e) => Err(e),
                },
                Ok((None, c1)) => Err(fail(c1, ErrorKind::UnknownType)),
                Err(e) => Err(e),
            }
        } else {
            match parse_expression(c, b) {
                Ok((e, c1)) => match expect(
                    c1,
                    TokenView::CloseParen,
                    ErrorKind::ExpectedCloseParen,
                ) {
                    Ok(c2) => Ok((e, c2)),
                    Err(e) => Err(e),
                },
                Err(e) => Err(e),
            }
        }
    }
}

/// `sizeof`, which has been read, then `(`, a type and `)`. Where no type
/// stands, the type is `int`.
pub open spec fn parse_sizeof(c: CursorView, budget: nat) -> ParsedExpr
    decreases budget,
{
    if budget == 0 {
        Err(fail(c, ErrorKind::LimitExceeded))
    } else {
        match expect(c, TokenView::OpenParen, ErrorKind::ExpectedOpenParen) {
            Ok(c1) => match parse_type(c1, (budget - 1) as nat) {
                Ok((t, c2)) => match expect(
                    c2,
                    TokenView::CloseParen,
                    ErrorKind::ExpectedCloseParen,
                ) {
                    Ok(c3) => Ok(
                        (
                            ExprView::SizeOf(
                                match t {
                                    Some(t) => t,
                                    None => Type::Int,
                                },
                            ),
                            c3,
                        ),
                    ),
                    Err(e) => Err(e),
                },
                Err(e) => Err(e),
            },
            Err(e) => Err(e),
        }
    }
}

/// A primary expression: a literal; `sizeof(type)`; an array literal in
/// braces or in square brackets; an identifier, alone or with arguments or
/// with an index; a cast; an expression in parentheses.
pub open spec fn parse_primary(c: CursorView, budget: nat) -> ParsedExpr
    decreases budget,
{
    if budget == 0 {
        Err(fail(c, ErrorKind::LimitExceeded))
    } else {
        let b = (budget - 1) as nat;
        match literal(c.current) {
            Some(e) => match advance(c) {
                Ok(c1) => Ok((e, c1)),
                Err(e) => Err(e),
            },
            None => match c.current {
                TokenView::Sizeof => match advance(c) {
                    Ok(c1) => parse_sizeof(c1, b),
                    Err(e) => Err(e),
                },
                TokenView::OpenBrace => match advance(c) {
                    Ok(c1) => parse_array(
                        c1,
                        TokenView::CloseBrace,
                        ErrorKind::ExpectedCloseBrace,
                        b,
                    ),
                    Err(e) => Err(e),
                },
                TokenView::OpenBracket => match advance(c) {
                    Ok(c1) => parse_array(
                        c1,
                        TokenView::CloseBracket,
                        ErrorKind::ExpectedCloseBracket,
                        b,
                    ),
                    Err(e) => Err(e),
                },
                TokenView::Identifier(name) => match advance(c) {
                    Ok(c1) => parse_named(c1, name, b),
                    Err(e) => Err(e),
                },
                TokenView::OpenParen => match advance(c) {
                    Ok(c1) => parse_parenthesized(c1, b),
                    Err(e) => Err(e),
                },
                _ => Err(fail(c, ErrorKind::UnexpectedToken)),
            },
        }
    }
}

// ---------------------------------------------------------------------------
// Statements
// ---------------------------------------------------------------------------
/// A parsed statement that declares no constant, and the token stream after
/// it.
pub type ParsedSimple = Result<(StmtView, CursorView), ErrorView>;

/// The parser at another place of the token stream.
pub open spec fn at(p: ParserView, cursor: CursorView) -> ParserView {
    ParserView { cursor, ..p }
}

/// A simple statement as a statement of the parser `p`.
pub open spec fn within(p: ParserView, r: ParsedSimple) -> ParsedStmt {
    match r {
        Ok((s, c)) => Ok((s, at(p, c))),
        Err(e) => Err(e),
    }
}

/// Whether a token starts a declaration with a type in front.
pub open spec fn starts_declaration(token: TokenView) -> bool {
    token matches TokenView::Identifier(name) && named_type(name) is Some
}

/// The statement that a `let` with these declarations stands for: the one
/// declaration, or a block of several.
pub open spec fn let_statement(decls: Seq<StmtView>) -> StmtView {
    if decls.len() == 1 {
        decls[0]
    } else {
        StmtView::Block(decls)
    }
}

/// `return`, which has been read, then an expression and `;`. Before `;`
/// or `}` the expression may be missing and is 0; the `;` may be missing
/// too.
pub open spec fn parse_return(c: CursorView, budget: nat) -> ParsedSimple
    decreases budget,
{
    if budget == 0 {
        Err(fail(c, ErrorKind::LimitExceeded))
    } else {
        let value = if c.current == TokenView::Semicolon || c.current == TokenView::CloseBrace {
            Ok((ExprView::Number(0), c))
        } else {
            parse_expression(c, (budget - 1) as nat)
        };
        match value {
            Ok((e, c1)) => if c1.current == TokenView::Semicolon {
                match advance(c1) {
                    Ok(c2) => Ok((StmtView::Return(e), c2)),
                    Err(e) => Err(e),
                }
            } else {
                Ok((StmtView::Return(e), c1))
            },
            Err(e) => Err(e),
        }
    }
}

/// The declarations of a `let`, which has been read: `name = value` or
/// `name: type = value`, separated by commas. A declaration without a type
/// is an `int`.
pub open spec fn parse_lets(c: CursorView, done: Seq<StmtView>, budget: nat) -> Result<
    (Seq<StmtView>, CursorView),
    ErrorView,
>
    decreases budget,
{
    if budget == 0 {
        Err(fail(c, ErrorKind::LimitExceeded))
    } else {
        let b = (budget - 1) as nat;
        match expect_identifier(c) {
            Ok((name, c1)) => {
                let typed: ParsedType = if c1.current == TokenView::Colon {
                    match advance(c1) {
                        Ok(c2) => parse_type(c2, b),
                        Err(e) => Err(e),
                    }
                } else {
                    Ok((None, c1))
                };
                match typed {
                    Ok((t, c3)) => match expect(c3, TokenView::Assign, ErrorKind::ExpectedAssign) {
                        Ok(c4) => match parse_expression(c4, b) {
                            Ok((value, c5)) => {
                                let decl = StmtView::Let {
                                    name,
                                    value,
                                    var_type: Some(
                                        match t {
                                            Some(t) => t,
                                            None => Type::Int,
                                        },
                                    ),
                                };
                                if c5.current == TokenView::Comma {
                                    match advance(c5) {
                                        Ok(c6) => parse_lets(c6, done.push(decl), b),
                                        Err(e) => Err(e),
                                    }
                                } else {
                                    Ok((done.push(decl), c5))
                                }
                            },
                            Err(e) => Err(e),
                        },
                        Err(e) => Err(e),
                    },
                    Err(e) => Err(e),
                }
            },
            Err(e) => Err(e),
        }
    }
}

/// `print`, which has been read, then `(`, an expression, `)` and `;`.
pub open spec fn parse_print(c: CursorView, budget: nat) -> ParsedSimple
    decreases budget,
{
    if budget == 0 {
        Err(fail(c, ErrorKind::LimitExceeded))
    } else {
        match expect(c, TokenView::OpenParen, ErrorKind::ExpectedOpenParen) {
            Ok(c1) => match parse_expression(c1, (budget - 1) as nat) {
                Ok((e, c2)) => match expect(
                    c2,
                    TokenView::CloseParen,
                    ErrorKind::ExpectedCloseParen,
                ) {
                    Ok(c3) => match expect(c3, TokenView::Semicolon, ErrorKind::ExpectedSemicolon) {
                        Ok(c4) => Ok((StmtView::Print(e), c4)),
                        Err(e) => Err(e),
                    },
                    Err(e) => Err(e),
                },
                Err(e) => Err(e),
            },
            Err(e) => Err(e),
        }
    }
}

/// An expression and `;`.
pub open spec fn parse_expression_statement(c: CursorView, budget: nat) -> ParsedSimple
    decreases budget,
{
    if budget == 0 {
        Err(fail(c, ErrorKind::LimitExceeded))
    } else {
        match parse_expression(c, (budget - 1) as nat) {
            Ok((e, c1)) => match expect(c1, TokenView::Semicolon, ErrorKind::ExpectedSemicolon) {
                Ok(c2) => Ok((StmtView::ExprStmt(e), c2)),
                Err(e) => Err(e),
            },
            Err(e) => Err(e),
        }
    }
}

/// The condition of an `if` or a `while`: `(`, an expression and `)`.
pub open spec fn parse_condition(c: CursorView, budget: nat) -> ParsedExpr
    decreases budget,
{
    if budget == 0 {
        Err(fail(c, ErrorKind::LimitExceeded))
    } else {
        match expect(c, TokenView::OpenParen, ErrorKind::ExpectedOpenParen) {
            Ok(c1) => match parse_expression(c1, (budget - 1) as nat) {
                Ok((e, c2)) => match expect(
                    c2,
                    TokenView::CloseParen,
                    ErrorKind::ExpectedCloseParen,
                ) {
                    Ok(c3) => Ok((e, c3)),
                    Err(e) => Err(e),
                },
                Err(e) => Err(e),
            },
            Err(e) => Err(e),
        }
    }
}

/// The parameters of a function up to the closing parenthesis, which is not
/// read: identifiers separated by commas; a comma may follow the last.
pub open spec fn parse_params(c: CursorView, done: Seq<Seq<char>>, budget: nat) -> Result<
    (Seq<Seq<char>>, CursorView),
    ErrorView,
>
    decreases budget,
{
    if budget == 0 {
        Err(fail(c, ErrorKind::LimitExceeded))
    } else if c.current == TokenView::CloseParen {
        Ok((done, c))
    } else {
        match expect_identifier(c) {
            Ok((name, c1)) => if c1.current == TokenView::Comma {
                match advance(c1) {
                    Ok(c2) => parse_params(c2, done.push(name), (budget - 1) as nat),
                    Err(e) => Err(e),
                }
            } else if c1.current == TokenView::CloseParen {
                Ok((done.push(name), c1))
            } else {
                Err(fail(c1, ErrorKind::ExpectedSeparator))
            },
            Err(e) => Err(e),
        }
    }
}

/// The constants of an `enum` up to the closing brace, which is not read:
/// `name` or `name = number`, separated by commas. A constant without a
/// number is one more than the constant before it, and the first is 0.
/// Each is entered into the table of constants at once.
pub open spec fn parse_enum_items(p: ParserView, value: i32, budget: nat) -> Result<
    ParserView,
    ErrorView,
>
    decreases budget,
{
    if budget == 0 {
        Err(fail(p.cursor, ErrorKind::LimitExceeded))
    } else if p.cursor.current == TokenView::CloseBrace {
        Ok(p)
    } else {
        match expect_identifier(p.cursor) {
            Ok((name, c1)) => {
                let numbered: Result<(i32, CursorView), ErrorView> = if c1.current
                    == TokenView::Assign {
                    match advance(c1) {
                        Ok(c2) => match c2.current {
                            TokenView::Num(n) => match advance(c2) {
                                Ok(c3) => Ok((n, c3)),
                                Err(e) => Err(e),
                            },
                            _ => Err(fail(c2, ErrorKind::ExpectedNumber)),
                        },
                        Err(e) => Err(e),
                    }
                } else {
                    Ok((value, c1))
                };
                match numbered {
                    Ok((n, c4)) => {
                        let constants = p.constants.insert(name, n);
                        let next = n.wrapping_add(1);
                        if c4.current == TokenView::Comma {
                            match advance(c4) {
                                Ok(c5) => parse_enum_items(
                                    ParserView { cursor: c5, constants },
                                    next,
                                    (budget - 1) as nat,
                                ),
                                Err(e) => Err(e),
                            }
                        } else if c4.current == TokenView::CloseBrace {
                            Ok(ParserView { cursor: c4, constants })
                        } else {
                            Err(fail(c4, ErrorKind::ExpectedSeparator))
                        }
                    },
                    Err(e) => Err(e),
                }
            },
            Err(e) => Err(e),
        }
    }
}

/// `enum`, which has been read, then `{`, the constants, `}` and `;`. The
/// statement that it leaves is an empty block.
pub open spec fn parse_enum(p: ParserView, budget: nat) -> ParsedStmt
    decreases budget,
{
    if budget == 0 {
        Err(fail(p.cursor, ErrorKind::LimitExceeded))
    } else {
        match expect(p.cursor, TokenView::OpenBrace, ErrorKind::ExpectedOpenBrace) {
            Ok(c1) => match parse_enum_items(at(p, c1), 0, (budget - 1) as nat) {
                Ok(p2) => match expect(
                    p2.cursor,
                    TokenView::CloseBrace,
                    ErrorKind::ExpectedCloseBrace,
                ) {
                    Ok(c3) => match expect(c3, TokenView::Semicolon, ErrorKind::ExpectedSemicolon) {
                        Ok(c4) => Ok((StmtView::Block(Seq::empty()), at(p2, c4))),
                        Err(e) => Err(e),
                    },
                    Err(e) => Err(e),
                },
                Err(e) => Err(e),
            },
            Err(e) => Err(e),
        }
    }
}

/// A statement.
///
/// A type name in front starts a declaration: `type name = value;`, or a
/// function `type name(params) { ... }`. Else the first token decides:
/// `return`, `let`, `print`, `if`, `while`, `{` for a block, `fn` for a
/// function without a return type, `enum`; and anything else starts an
/// expression that `;` ends.
pub open spec fn parse_statement(p: ParserView, budget: nat) -> ParsedStmt
    decreases budget,
{
    if budget == 0 {
        Err(fail(p.cursor, ErrorKind::LimitExceeded))
    } else {
        let b = (budget - 1) as nat;
        let c = p.cursor;
        if starts_declaration(c.current) {
            parse_typed(p, b)
        } else {
            match c.current {
                TokenView::Return => match advance(c) {
                    Ok(c1) => within(p, parse_return(c1, b)),
                    Err(e) => Err(e),
                },
                TokenView::Let => match advance(c) {
                    Ok(c1) => match parse_lets(c1, Seq::empty(), b) {
                        Ok((decls, c2)) => match expect(
                            c2,
                            TokenView::Semicolon,
                            ErrorKind::ExpectedSemicolon,
                        ) {
                            Ok(c3) => Ok((let_statement(decls), at(p, c3))),
                            Err(e) => Err(e),
                        },
                        Err(e) => Err(e),
                    },
                    Err(e) => Err(e),
                },
                TokenView::Print => match advance(c) {
                    Ok(c1) => within(p, parse_print(c1, b)),
                    Err(e) => Err(e),
                },
                TokenView::If => match advance(c) {
                    Ok(c1) => match parse_condition(c1, b) {
                        Ok((condition, c2)) => match parse_statement(at(p, c2), b) {
                            Ok((then_branch, p3)) => if p3.cursor.current == TokenView::Else {
                                match advance(p3.cursor) {
                                    Ok(c4) => match parse_statement(at(p3, c4), b) {
                                        Ok((else_branch, p5)) => Ok(
                                            (
                                                StmtView::If {
                                                    condition,
                                                    then_branch: Box::new(then_branch),
                                                    else_branch: Some(Box::new(else_branch)),
                                                },
                                                p5,
                                            ),
                                        ),
                                        Err(e) => Err(e),
                                    },
                                    Err(e) => Err(e),
                                }
                            } else {
                                Ok(
                                    (
                                        StmtView::If {
                                            condition,
                                            then_branch: Box::new(then_branch),
                                            else_branch: None,
                                        },
                                        p3,
                                    ),
                                )
                            },
                            Err(e) => Err(e),
                        },
                        Err(e) => Err(e),
                    },
                    Err(e) => Err(e),
                },
                TokenView::While => match advance(c) {
                    Ok(c1) => match parse_condition(c1, b) {
                        Ok((condition, c2)) => match parse_statement(at(p, c2), b) {
                            Ok((body, p3)) => Ok(
                                (StmtView::While { condition, body: Box::new(body) }, p3),
                            ),
                            Err(e) => Err(e),
                        },
                        Err(e) => Err(e),
                    },
                    Err(e) => Err(e),
                },
                TokenView::OpenBrace => parse_block(p, b),
                TokenView::Fn => match advance(c) {
                    Ok(c1) => match expect_identifier(c1) {
                        Ok((name, c2)) => parse_function(at(p, c2), name, None, b),
                        Err(e) => Err(e),
                    },
                    Err(e) => Err(e),
                },
                TokenView::Enum => match advance(c) {
                    Ok(c1) => parse_enum(at(p, c1), b),
                    Err(e) => Err(e),
                },
                _ => within(p, parse_expression_statement(c, b)),
            }
        }
    }
}

/// A declaration with its type in front: `type name = value;`, or
/// `type name(params)` and a block, which declares a function.
pub open spec fn parse_typed(p: ParserView, budget: nat) -> ParsedStmt
    decreases budget,
{
    if budget == 0 {
        Err(fail(p.cursor, ErrorKind::LimitExceeded))
    } else {
        let b = (budget - 1) as nat;
        match parse_type(p.cursor, b) {
            Ok((Some(t), c1)) => match expect_identifier(c1) {
                Ok((name, c2)) => if c2.current == TokenView::OpenParen {
                    parse_function(at(p, c2), name, Some(t), b)
                } else {
                    match expect(c2, TokenView::Assign, ErrorKind::ExpectedAssign) {
                        Ok(c3) => match parse_expression(c3, b) {
                            Ok((value, c4)) => match expect(
                                c4,
                                TokenView::Semicolon,
                                ErrorKind::ExpectedSemicolon,
                            ) {
                                Ok(c5) => Ok(
                                    (StmtView::Let { name, value, var_type: Some(t) }, at(p, c5)),
                                ),
                                Err(e) => Err(e),
                            },
                            Err(e) => Err(e),
                        },
                        Err(e) => Err(e),
                    }
                },
                Err(e) => Err(e),
            },
            Ok((None, c1)) => Err(fail(c1, ErrorKind::UnknownType)),
            Err(e) => Err(e),
        }
    }
}

/// The rest of a function declaration whose name has been read: the
/// parameters in parentheses and a block.
pub open spec fn parse_function(
    p: ParserView,
    name: Seq<char>,
    return_type: Option<Type>,
    budget: nat,
) -> ParsedStmt
    decreases budget,
{
    if budget == 0 {
        Err(fail(p.cursor, ErrorKind::LimitExceeded))
    } else {
        let b = (budget - 1) as nat;
        match expect(p.cursor, TokenView::OpenParen, ErrorKind::ExpectedOpenParen) {
            Ok(c1) => match parse_params(c1, Seq::empty(), b) {
                Ok((params, c2)) => match expect(
                    c2,
                    TokenView::CloseParen,
                    ErrorKind::ExpectedCloseParen,
                ) {
                    Ok(c3) => match parse_block(at(p, c3), b) {
                        Ok((body, p4)) => Ok(
                            (
                                StmtView::Function {
                                    name,
                                    params,
                                    body: Box::new(body),
                                    return_type,
                                },
                                p4,
                            ),
                        ),
                        Err(e) => Err(e),
                    },
                    Err(e) => Err(e),
                },
                Err(e) => Err(e),
            },
            Err(e) => Err(e),
        }
    }
}

/// A block: `{`, statements and `}`.
pub open spec fn parse_block(p: ParserView, budget: nat) -> ParsedStmt
    decreases budget,
{
    if budget == 0 {
        Err(fail(p.cursor, ErrorKind::LimitExceeded))
    } else {
        match expect(p.cursor, TokenView::OpenBrace, ErrorKind::ExpectedOpenBrace) {
            Ok(c1) => match parse_statements(
                at(p, c1),
                TokenView::CloseBrace,
                Seq::empty(),
                (budget - 1) as nat,
            ) {
                Ok((stmts, p2)) => match advance(p2.cursor) {
                    Ok(c3) => Ok((StmtView::Block(stmts), at(p2, c3))),
                    Err(e) => Err(e),
                },
                Err(e) => Err(e),
            },
            Err(e) => Err(e),
        }
    }
}

/// Statements up to the token `end`, which is not read.
pub open spec fn parse_statements(
    p: ParserView,
    end: TokenView,
    done: Seq<StmtView>,
    budget: nat,
) -> ParsedStmts
    decreases budget,
{
    if budget == 0 {
        Err(fail(p.cursor, ErrorKind::LimitExceeded))
    } else if p.cursor.current == end {
        Ok((done, p))
    } else {
        match parse_statement(p, (budget - 1) as nat) {
            Ok((s, p1)) => parse_statements(p1, end, done.push(s), (budget - 1) as nat),
            Err(e) => Err(e),
        }
    }
}

/// A program: statements up to the end of the input.
pub open spec fn parse_program(p: ParserView, budget: nat) -> ParsedStmts {
    parse_statements(p, TokenView::Eof, Seq::empty(), budget)
}

} // verus!
