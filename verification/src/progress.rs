//! The parser's budget is ample: every function of the grammar reads at
//! least as many tokens as it spends levels of nesting, so a budget of a
//! fixed multiple of the length of the text is never used up.

use vstd::prelude::*;
use crate::ast::{ExprView, StmtView, Type};
use crate::budget::ran_out;
use crate::error::{ErrorKind, ErrorView};
use crate::grammar::{
    advance, array_suffix, at, binary_levels, binary_op, binary_rest, expect, expect_identifier,
    fail, is_prefix, literal, named_type, open_cursor, parse_arguments, parse_array,
    parse_assignment, parse_binary, parse_block, parse_condition, parse_elements, parse_enum,
    parse_enum_items, parse_expression, parse_expression_statement, parse_function, parse_lets,
    parse_named, parse_params, parse_parenthesized, parse_postfix, parse_primary, parse_print,
    parse_return, parse_sizeof, parse_statement, parse_statements, parse_type, parse_typed,
    parse_unary, prefixed, starts_declaration, starts_type, CursorView, ParsedType, ParserView,
};
use crate::interpreter::{full_budget, load};
use crate::lexer::{TokenView};
use crate::scanning::{lemma_lex_token_further, start_of};

verus! {

/// Whether the token stream is in order: the tokenizer is within its text,
/// and where the token read ahead is `Eof`, it is at the end.
pub open spec fn sound(c: CursorView) -> bool {
    &&& c.lexer.pos <= c.lexer.input.len()
    &&& c.current == TokenView::Eof ==> c.lexer.pos == c.lexer.input.len()
}

/// No fewer than the tokens that are left, the one read ahead included: the
/// characters left, and one more unless the token read ahead is `Eof`.
pub open spec fn tokens_left(c: CursorView) -> nat {
    (c.lexer.input.len() - c.lexer.pos) as nat + if c.current == TokenView::Eof {
        0nat
    } else {
        1nat
    }
}

/// Whether the token stream `after` is that of `before` further on: in
/// order, over the same text, with no more tokens left, and with fewer
/// where `strictly` is set.
pub open spec fn moved_on(before: CursorView, after: CursorView, strictly: bool) -> bool {
    &&& sound(after)
    &&& after.lexer.input == before.lexer.input
    &&& tokens_left(after) <= tokens_left(before)
    &&& strictly ==> tokens_left(after) < tokens_left(before)
}

/// How many levels of nesting the parser may spend for each token left.
pub open spec fn weight() -> nat {
    32
}

/// Whether `budget` is enough for a function of the grammar that nests
/// `height` levels deep before it reads a token.
pub open spec fn enough(c: CursorView, budget: nat, height: nat) -> bool {
    budget >= weight() * tokens_left(c) + height
}

/// Reading a token moves the stream on, strictly unless it is at `Eof`, and
/// uses up no budget.
pub proof fn lemma_advance(c: CursorView)
    requires
        sound(c),
    ensures
        !ran_out(advance(c)),
        advance(c) matches Ok(c1) ==> moved_on(c, c1, c.current != TokenView::Eof),
{
    lemma_lex_token_further(c.lexer);
}

/// Expecting a token moves the stream on strictly, and uses up no budget.
pub proof fn lemma_expect(c: CursorView, token: TokenView, kind: ErrorKind)
    requires
        sound(c),
        kind != ErrorKind::LimitExceeded,
        token != TokenView::Eof,
    ensures
        !ran_out(expect(c, token, kind)),
        expect(c, token, kind) matches Ok(c1) ==> moved_on(c, c1, true),
{
    lemma_advance(c);
}

/// Expecting an identifier moves the stream on strictly, and uses up no
/// budget.
pub proof fn lemma_expect_identifier(c: CursorView)
    requires
        sound(c),
    ensures
        !ran_out(expect_identifier(c)),
        expect_identifier(c) matches Ok((_, c1)) ==> moved_on(c, c1, true),
{
    lemma_advance(c);
}

/// Enough budget for more tokens is enough for fewer.
pub proof fn lemma_enough_after(
    before: CursorView,
    after: CursorView,
    budget: nat,
    height: nat,
    next: nat,
)
    requires
        height >= 1,
        enough(before, budget, height),
        tokens_left(after) < tokens_left(before),
        next <= weight(),
    ensures
        enough(after, (budget - 1) as nat, next),
{
    assert(weight() * tokens_left(after) + weight() <= weight() * tokens_left(before))
        by (nonlinear_arith)
        requires
            tokens_left(after) + 1 <= tokens_left(before),
    ;
}

/// A type parses within a budget that is enough.
pub proof fn lemma_parse_type_enough(c: CursorView, budget: nat)
    requires
        sound(c),
        enough(c, budget, 2),
    ensures
        !ran_out(parse_type(c, budget)),
        parse_type(c, budget) matches Ok((t, c1)) ==> moved_on(c, c1, t is Some),
    decreases budget,
{
    let b = (budget - 1) as nat;
    match c.current {
        TokenView::Identifier(name) => {
            if let Some(base) = named_type(name) {
                lemma_advance(c);
                if let Ok(c1) = advance(c) {
                    lemma_enough_after(c, c1, budget, 2, 1);
                    lemma_array_suffix_enough(c1, base, b);
                }
            }
        },
        TokenView::Mul => {
            lemma_advance(c);
            if let Ok(c1) = advance(c) {
                lemma_enough_after(c, c1, budget, 2, 2);
                lemma_parse_type_enough(c1, b);
            }
        },
        _ => {},
    }
}

/// The array lengths after a type name parse within a budget that is
/// enough.
pub proof fn lemma_array_suffix_enough(c: CursorView, base: Type, budget: nat)
    requires
        sound(c),
        enough(c, budget, 1),
    ensures
        !ran_out(array_suffix(c, base, budget)),
        array_suffix(c, base, budget) matches Ok((t, c1)) ==> t is Some && moved_on(c, c1, false),
    decreases budget,
{
    if c.current == TokenView::OpenBracket {
        lemma_advance(c);
        if let Ok(c1) = advance(c) {
            if let TokenView::Num(n) = c1.current {
                lemma_advance(c1);
                if let Ok(c2) = advance(c1) {
                    lemma_expect(c2, TokenView::CloseBracket, ErrorKind::ExpectedCloseBracket);
                    if let Ok(c3) = expect(
                        c2,
                        TokenView::CloseBracket,
                        ErrorKind::ExpectedCloseBracket,
                    ) {
                        lemma_enough_after(c, c3, budget, 1, 1);
                        lemma_array_suffix_enough(
                            c3,
                            Type::Array(Box::new(base), n as usize),
                            (budget - 1) as nat,
                        );
                    }
                }
            }
        }
    }
}

/// An expression parses within a budget that is enough, and reads a token.
pub proof fn lemma_parse_expression_enough(c: CursorView, budget: nat)
    requires
        sound(c),
        enough(c, budget, 14),
    ensures
        !ran_out(parse_expression(c, budget)),
        parse_expression(c, budget) matches Ok((_, c1)) ==> moved_on(c, c1, true),
    decreases budget,
{
    let b = (budget - 1) as nat;
    lemma_parse_assignment_enough(c, b);
    if let Ok((_, c1)) = parse_assignment(c, b) {
        if c1.current == TokenView::QuestionMark {
            lemma_advance(c1);
            if let Ok(c2) = advance(c1) {
                lemma_enough_after(c, c2, budget, 14, 14);
                lemma_parse_expression_enough(c2, b);
                if let Ok((_, c3)) = parse_expression(c2, b) {
                    lemma_expect(c3, TokenView::Colon, ErrorKind::ExpectedColon);
                    if let Ok(c4) = expect(c3, TokenView::Colon, ErrorKind::ExpectedColon) {
                        lemma_enough_after(c, c4, budget, 14, 14);
                        lemma_parse_expression_enough(c4, b);
                    }
                }
            }
        }
    }
}

/// An assignment parses within a budget that is enough, and reads a token.
pub proof fn lemma_parse_assignment_enough(c: CursorView, budget: nat)
    requires
        sound(c),
        enough(c, budget, 13),
    ensures
        !ran_out(parse_assignment(c, budget)),
        parse_assignment(c, budget) matches Ok((_, c1)) ==> moved_on(c, c1, true),
    decreases budget,
{
    let b = (budget - 1) as nat;
    lemma_parse_binary_enough(c, 0, b);
    if let Ok((_, c1)) = parse_binary(c, 0, b) {
        if c1.current == TokenView::Assign {
            lemma_advance(c1);
            if let Ok(c2) = advance(c1) {
                lemma_enough_after(c, c2, budget, 13, 13);
                lemma_parse_assignment_enough(c2, b);
            }
        }
    }
}

/// A chain of binary operators parses within a budget that is enough, and
/// reads a token.
pub proof fn lemma_parse_binary_enough(c: CursorView, level: u8, budget: nat)
    requires
        sound(c),
        level <= binary_levels(),
        enough(c, budget, (12 - level) as nat),
    ensures
        !ran_out(parse_binary(c, level, budget)),
        parse_binary(c, level, budget) matches Ok((_, c1)) ==> moved_on(c, c1, true),
    decreases budget,
{
    let b = (budget - 1) as nat;
    if level >= binary_levels() {
        lemma_parse_unary_enough(c, b);
    } else {
        lemma_parse_binary_enough(c, (level + 1) as u8, b);
        if let Ok((left, c1)) = parse_binary(c, (level + 1) as u8, b) {
            lemma_enough_after(c, c1, budget, (12 - level) as nat, 12);
            lemma_binary_rest_enough(c1, level, left, b);
        }
    }
}

/// The rest of a chain of binary operators parses within a budget that is
/// enough.
pub proof fn lemma_binary_rest_enough(c: CursorView, level: u8, left: ExprView, budget: nat)
    requires
        sound(c),
        level < binary_levels(),
        enough(c, budget, 12),
    ensures
        !ran_out(binary_rest(c, level, left, budget)),
        binary_rest(c, level, left, budget) matches Ok((_, c1)) ==> moved_on(c, c1, false),
    decreases budget,
{
    let b = (budget - 1) as nat;
    if let Some(op) = binary_op(level, c.current) {
        lemma_advance(c);
        if let Ok(c1) = advance(c) {
            lemma_enough_after(c, c1, budget, 12, 12);
            lemma_parse_binary_enough(c1, (level + 1) as u8, b);
            if let Ok((right, c2)) = parse_binary(c1, (level + 1) as u8, b) {
                lemma_enough_after(c, c2, budget, 12, 12);
                lemma_binary_rest_enough(
                    c2,
                    level,
                    ExprView::BinaryOp { op, left: Box::new(left), right: Box::new(right) },
                    b,
                );
            }
        }
    }
}

/// A unary expression parses within a budget that is enough, and reads a
/// token.
pub proof fn lemma_parse_unary_enough(c: CursorView, budget: nat)
    requires
        sound(c),
        enough(c, budget, 2),
    ensures
        !ran_out(parse_unary(c, budget)),
        parse_unary(c, budget) matches Ok((_, c1)) ==> moved_on(c, c1, true),
    decreases budget,
{
    let b = (budget - 1) as nat;
    if is_prefix(c.current) {
        lemma_advance(c);
        if let Ok(c1) = advance(c) {
            lemma_enough_after(c, c1, budget, 2, 2);
            lemma_parse_unary_enough(c1, b);
            if let Ok((operand, c2)) = parse_unary(c1, b) {
                lemma_enough_after(c, c2, budget, 2, 1);
                lemma_parse_postfix_enough(c2, prefixed(c.current, operand).unwrap(), b);
            }
        }
    } else {
        lemma_parse_primary_enough(c, b);
        if let Ok((e, c1)) = parse_primary(c, b) {
            lemma_enough_after(c, c1, budget, 2, 1);
            lemma_parse_postfix_enough(c1, e, b);
        }
    }
}

/// The postfix operators after an expression parse within a budget that is
/// enough.
pub proof fn lemma_parse_postfix_enough(c: CursorView, e: ExprView, budget: nat)
    requires
        sound(c),
        enough(c, budget, 1),
    ensures
        !ran_out(parse_postfix(c, e, budget)),
        parse_postfix(c, e, budget) matches Ok((_, c1)) ==> moved_on(c, c1, false),
    decreases budget,
{
    let b = (budget - 1) as nat;
    if c.current == TokenView::PlusPlus {
        lemma_advance(c);
        if let Ok(c1) = advance(c) {
            lemma_enough_after(c, c1, budget, 1, 1);
            lemma_parse_postfix_enough(c1, ExprView::PostInc(Box::new(e)), b);
        }
    } else if c.current == TokenView::MinusMinus {
        lemma_advance(c);
        if let Ok(c1) = advance(c) {
            lemma_enough_after(c, c1, budget, 1, 1);
            lemma_parse_postfix_enough(c1, ExprView::PostDec(Box::new(e)), b);
        }
    }
}

/// The elements of an array literal parse within a budget that is enough.
pub proof fn lemma_parse_elements_enough(
    c: CursorView,
    close: TokenView,
    done: Seq<ExprView>,
    budget: nat,
)
    requires
        sound(c),
        enough(c, budget, 15),
    ensures
        !ran_out(parse_elements(c, close, done, budget)),
        parse_elements(c, close, done, budget) matches Ok((_, c1)) ==> moved_on(c, c1, false),
    decreases budget,
{
    let b = (budget - 1) as nat;
    if c.current != close {
        lemma_parse_expression_enough(c, b);
        if let Ok((e, c1)) = parse_expression(c, b) {
            if c1.current == TokenView::Comma {
                lemma_advance(c1);
                if let Ok(c2) = advance(c1) {
                    lemma_enough_after(c, c2, budget, 15, 15);
                    lemma_parse_elements_enough(c2, close, done.push(e), b);
                }
            }
        }
    }
}

/// The arguments of a call parse within a budget that is enough.
pub proof fn lemma_parse_arguments_enough(c: CursorView, done: Seq<ExprView>, budget: nat)
    requires
        sound(c),
        enough(c, budget, 15),
    ensures
        !ran_out(parse_arguments(c, done, budget)),
        parse_arguments(c, done, budget) matches Ok((_, c1)) ==> moved_on(c, c1, false),
    decreases budget,
{
    let b = (budget - 1) as nat;
    if c.current != TokenView::CloseParen {
        lemma_parse_expression_enough(c, b);
        if let Ok((e, c1)) = parse_expression(c, b) {
            if c1.current == TokenView::Comma {
                lemma_advance(c1);
                if let Ok(c2) = advance(c1) {
                    lemma_enough_after(c, c2, budget, 15, 15);
                    lemma_parse_arguments_enough(c2, done.push(e), b);
                }
            } else {
                lemma_enough_after(c, c1, budget, 15, 15);
                lemma_parse_arguments_enough(c1, done.push(e), b);
            }
        }
    }
}

/// An array literal parses within a budget that is enough.
pub proof fn lemma_parse_array_enough(c: CursorView, close: TokenView, kind: ErrorKind, budget: nat)
    requires
        sound(c),
        enough(c, budget, 16),
        kind != ErrorKind::LimitExceeded,
        close != TokenView::Eof,
    ensures
        !ran_out(parse_array(c, close, kind, budget)),
        parse_array(c, close, kind, budget) matches Ok((_, c1)) ==> moved_on(c, c1, true),
    decreases budget,
{
    let b = (budget - 1) as nat;
    lemma_parse_elements_enough(c, close, Seq::empty(), b);
    if let Ok((_, c1)) = parse_elements(c, close, Seq::empty(), b) {
        lemma_expect(c1, close, kind);
    }
}

/// What follows an identifier parses within a budget that is enough.
pub proof fn lemma_parse_named_enough(c: CursorView, name: Seq<char>, budget: nat)
    requires
        sound(c),
        enough(c, budget, 16),
    ensures
        !ran_out(parse_named(c, name, budget)),
        parse_named(c, name, budget) matches Ok((_, c1)) ==> moved_on(c, c1, false),
    decreases budget,
{
    let b = (budget - 1) as nat;
    match c.current {
        TokenView::OpenParen => {
            lemma_advance(c);
            if let Ok(c1) = advance(c) {
                lemma_enough_after(c, c1, budget, 16, 15);
                lemma_parse_arguments_enough(c1, Seq::empty(), b);
                if let Ok((_, c2)) = parse_arguments(c1, Seq::empty(), b) {
                    lemma_expect(c2, TokenView::CloseParen, ErrorKind::ExpectedCloseParen);
                }
            }
        },
        TokenView::OpenBracket => {
            lemma_advance(c);
            if let Ok(c1) = advance(c) {
                lemma_enough_after(c, c1, budget, 16, 14);
                lemma_parse_expression_enough(c1, b);
                if let Ok((_, c2)) = parse_expression(c1, b) {
                    lemma_expect(c2, TokenView::CloseBracket, ErrorKind::ExpectedCloseBracket);
                }
            }
        },
        _ => {},
    }
}

/// What follows an opening parenthesis parses within a budget that is
/// enough, and reads a token.
pub proof fn lemma_parse_parenthesized_enough(c: CursorView, budget: nat)
    requires
        sound(c),
        enough(c, budget, 15),
    ensures
        !ran_out(parse_parenthesized(c, budget)),
        parse_parenthesized(c, budget) matches Ok((_, c1)) ==> moved_on(c, c1, true),
    decreases budget,
{
    let b = (budget - 1) as nat;
    if starts_type(c.current) {
        lemma_parse_type_enough(c, b);
        if let Ok((Some(t), c1)) = parse_type(c, b) {
            lemma_expect(c1, TokenView::CloseParen, ErrorKind::ExpectedCloseParen);
            if let Ok(c2) = expect(c1, TokenView::CloseParen, ErrorKind::ExpectedCloseParen) {
                lemma_enough_after(c, c2, budget, 15, 2);
                lemma_parse_unary_enough(c2, b);
            }
        }
    } else {
        lemma_parse_expression_enough(c, b);
        if let Ok((_, c1)) = parse_expression(c, b) {
            lemma_expect(c1, TokenView::CloseParen, ErrorKind::ExpectedCloseParen);
        }
    }
}

/// `sizeof` parses within a budget that is enough, and reads a token.
pub proof fn lemma_parse_sizeof_enough(c: CursorView, budget: nat)
    requires
        sound(c),
        enough(c, budget, 3),
    ensures
        !ran_out(parse_sizeof(c, budget)),
        parse_sizeof(c, budget) matches Ok((_, c1)) ==> moved_on(c, c1, true),
    decreases budget,
{
    lemma_expect(c, TokenView::OpenParen, ErrorKind::ExpectedOpenParen);
    if let Ok(c1) = expect(c, TokenView::OpenParen, ErrorKind::ExpectedOpenParen) {
        lemma_enough_after(c, c1, budget, 3, 2);
        lemma_parse_type_enough(c1, (budget - 1) as nat);
        if let Ok((_, c2)) = parse_type(c1, (budget - 1) as nat) {
            lemma_expect(c2, TokenView::CloseParen, ErrorKind::ExpectedCloseParen);
        }
    }
}

/// A primary expression parses within a budget that is enough, and reads a
/// token.
pub proof fn lemma_parse_primary_enough(c: CursorView, budget: nat)
    requires
        sound(c),
        enough(c, budget, 1),
    ensures
        !ran_out(parse_primary(c, budget)),
        parse_primary(c, budget) matches Ok((_, c1)) ==> moved_on(c, c1, true),
    decreases budget,
{
    let b = (budget - 1) as nat;
    lemma_advance(c);
    if literal(c.current) is None {
        if let Ok(c1) = advance(c) {
            match c.current {
                TokenView::Sizeof => {
                    lemma_enough_after(c, c1, budget, 1, 3);
                    lemma_parse_sizeof_enough(c1, b);
                },
                TokenView::OpenBrace => {
                    lemma_enough_after(c, c1, budget, 1, 16);
                    lemma_parse_array_enough(
                        c1,
                        TokenView::CloseBrace,
                        ErrorKind::ExpectedCloseBrace,
                        b,
                    );
                },
                TokenView::OpenBracket => {
                    lemma_enough_after(c, c1, budget, 1, 16);
                    lemma_parse_array_enough(
                        c1,
                        TokenView::CloseBracket,
                        ErrorKind::ExpectedCloseBracket,
                        b,
                    );
                },
                TokenView::Identifier(name) => {
                    lemma_enough_after(c, c1, budget, 1, 16);
                    lemma_parse_named_enough(c1, name, b);
                },
                TokenView::OpenParen => {
                    lemma_enough_after(c, c1, budget, 1, 15);
                    lemma_parse_parenthesized_enough(c1, b);
                },
                _ => {},
            }
        }
    }
}

/// `return` parses within a budget that is enough.
pub proof fn lemma_parse_return_enough(c: CursorView, budget: nat)
    requires
        sound(c),
        enough(c, budget, 15),
    ensures
        !ran_out(parse_return(c, budget)),
        parse_return(c, budget) matches Ok((_, c1)) ==> moved_on(c, c1, false),
{
    if !(c.current == TokenView::Semicolon || c.current == TokenView::CloseBrace) {
        lemma_parse_expression_enough(c, (budget - 1) as nat);
        if let Ok((_, c1)) = parse_expression(c, (budget - 1) as nat) {
            lemma_advance(c1);
        }
    } else {
        lemma_advance(c);
    }
}

/// The declarations of a `let` parse within a budget that is enough, and
/// read a token.
pub proof fn lemma_parse_lets_enough(c: CursorView, done: Seq<StmtView>, budget: nat)
    requires
        sound(c),
        enough(c, budget, 1),
    ensures
        !ran_out(parse_lets(c, done, budget)),
        parse_lets(c, done, budget) matches Ok((_, c1)) ==> moved_on(c, c1, true),
    decreases budget,
{
    let b = (budget - 1) as nat;
    lemma_expect_identifier(c);
    if let Ok((name, c1)) = expect_identifier(c) {
        let typed: ParsedType = if c1.current == TokenView::Colon {
            match advance(c1) {
                Ok(c2) => parse_type(c2, b),
                Err(e) => Err(e),
            }
        } else {
            Ok((None, c1))
        };
        if c1.current == TokenView::Colon {
            lemma_advance(c1);
            if let Ok(c2) = advance(c1) {
                lemma_enough_after(c, c2, budget, 1, 2);
                lemma_parse_type_enough(c2, b);
            }
        }
        if let Ok((t, c3)) = typed {
            lemma_expect(c3, TokenView::Assign, ErrorKind::ExpectedAssign);
            if let Ok(c4) = expect(c3, TokenView::Assign, ErrorKind::ExpectedAssign) {
                lemma_enough_after(c, c4, budget, 1, 14);
                lemma_parse_expression_enough(c4, b);
                if let Ok((value, c5)) = parse_expression(c4, b) {
                    let decl = StmtView::Let {
                        name,
                        value,
                        var_type: Some(
                            match t {
                                Some(t) => t,
                                None => Type::Int,
                            },
                        ),
                    };
                    if c5.current == TokenView::Comma {
                        lemma_advance(c5);
                        if let Ok(c6) = advance(c5) {
                            lemma_enough_after(c, c6, budget, 1, 1);
                            lemma_parse_lets_enough(c6, done.push(decl), b);
                        }
                    }
                }
            }
        }
    }
}

/// `print` parses within a budget that is enough, and reads a token.
pub proof fn lemma_parse_print_enough(c: CursorView, budget: nat)
    requires
        sound(c),
        enough(c, budget, 1),
    ensures
        !ran_out(parse_print(c, budget)),
        parse_print(c, budget) matches Ok((_, c1)) ==> moved_on(c, c1, true),
{
    lemma_expect(c, TokenView::OpenParen, ErrorKind::ExpectedOpenParen);
    if let Ok(c1) = expect(c, TokenView::OpenParen, ErrorKind::ExpectedOpenParen) {
        lemma_enough_after(c, c1, budget, 1, 14);
        lemma_parse_expression_enough(c1, (budget - 1) as nat);
        if let Ok((_, c2)) = parse_expression(c1, (budget - 1) as nat) {
            lemma_expect(c2, TokenView::CloseParen, ErrorKind::ExpectedCloseParen);
            if let Ok(c3) = expect(c2, TokenView::CloseParen, ErrorKind::ExpectedCloseParen) {
                lemma_expect(c3, TokenView::Semicolon, ErrorKind::ExpectedSemicolon);
            }
        }
    }
}

/// An expression statement parses within a budget that is enough, and
/// reads a token.
pub proof fn lemma_parse_expression_statement_enough(c: CursorView, budget: nat)
    requires
        sound(c),
        enough(c, budget, 15),
    ensures
        !ran_out(parse_expression_statement(c, budget)),
        parse_expression_statement(c, budget) matches Ok((_, c1)) ==> moved_on(c, c1, true),
{
    lemma_parse_expression_enough(c, (budget - 1) as nat);
    if let Ok((_, c1)) = parse_expression(c, (budget - 1) as nat) {
        lemma_expect(c1, TokenView::Semicolon, ErrorKind::ExpectedSemicolon);
    }
}

/// A condition parses within a budget that is enough, and reads a token.
pub proof fn lemma_parse_condition_enough(c: CursorView, budget: nat)
    requires
        sound(c),
        enough(c, budget, 1),
    ensures
        !ran_out(parse_condition(c, budget)),
        parse_condition(c, budget) matches Ok((_, c1)) ==> moved_on(c, c1, true),
{
    lemma_expect(c, TokenView::OpenParen, ErrorKind::ExpectedOpenParen);
    if let Ok(c1) = expect(c, TokenView::OpenParen, ErrorKind::ExpectedOpenParen) {
        lemma_enough_after(c, c1, budget, 1, 14);
        lemma_parse_expression_enough(c1, (budget - 1) as nat);
        if let Ok((_, c2)) = parse_expression(c1, (budget - 1) as nat) {
            lemma_expect(c2, TokenView::CloseParen, ErrorKind::ExpectedCloseParen);
        }
    }
}

/// The parameters of a function parse within a budget that is enough.
pub proof fn lemma_parse_params_enough(c: CursorView, done: Seq<Seq<char>>, budget: nat)
    requires
        sound(c),
        enough(c, budget, 1),
    ensures
        !ran_out(parse_params(c, done, budget)),
        parse_params(c, done, budget) matches Ok((_, c1)) ==> moved_on(c, c1, false),
    decreases budget,
{
    if c.current != TokenView::CloseParen {
        lemma_expect_identifier(c);
        if let Ok((name, c1)) = expect_identifier(c) {
            if c1.current == TokenView::Comma {
                lemma_advance(c1);
                if let Ok(c2) = advance(c1) {
                    lemma_enough_after(c, c2, budget, 1, 1);
                    lemma_parse_params_enough(c2, done.push(name), (budget - 1) as nat);
                }
            }
        }
    }
}

/// The constants of an `enum` parse within a budget that is enough.
pub proof fn lemma_parse_enum_items_enough(p: ParserView, value: i32, budget: nat)
    requires
        sound(p.cursor),
        enough(p.cursor, budget, 1),
    ensures
        !ran_out(parse_enum_items(p, value, budget)),
        parse_enum_items(p, value, budget) matches Ok(p1) ==> moved_on(p.cursor, p1.cursor, false),
    decreases budget,
{
    let c = p.cursor;
    if c.current != TokenView::CloseBrace {
        lemma_expect_identifier(c);
        if let Ok((name, c1)) = expect_identifier(c) {
            let numbered: Result<(i32, CursorView), ErrorView> = if c1.current
                == TokenView::Assign {
                match advance(c1) {
                    Ok(c2) => match c2.current {
                        TokenView::Num(n) => match advance(c2) {
                            Ok(c3) => Ok((n, c3)),
                            Err(e) => Err(e),
                        },
                        _ => Err(fail(c2, ErrorKind::ExpectedNumber)),
                    },
                    Err(e) => Err(e),
                }
            } else {
                Ok((value, c1))
            };
            if c1.current == TokenView::Assign {
                lemma_advance(c1);
                if let Ok(c2) = advance(c1) {
                    lemma_advance(c2);
                }
            }
            if let Ok((n, c4)) = numbered {
                if c4.current == TokenView::Comma {
                    lemma_advance(c4);
                    if let Ok(c5) = advance(c4) {
                        lemma_enough_after(c, c5, budget, 1, 1);
                        lemma_parse_enum_items_enough(
                            ParserView { cursor: c5, constants: p.constants.insert(name, n) },
                            n.wrapping_add(1),
                            (budget - 1) as nat,
                        );
                    }
                }
            }
        }
    }
}

/// An `enum` parses within a budget that is enough, and reads a token.
pub proof fn lemma_parse_enum_enough(p: ParserView, budget: nat)
    requires
        sound(p.cursor),
        enough(p.cursor, budget, 1),
    ensures
        !ran_out(parse_enum(p, budget)),
        parse_enum(p, budget) matches Ok((_, p1)) ==> moved_on(p.cursor, p1.cursor, true),
{
    let c = p.cursor;
    lemma_expect(c, TokenView::OpenBrace, ErrorKind::ExpectedOpenBrace);
    if let Ok(c1) = expect(c, TokenView::OpenBrace, ErrorKind::ExpectedOpenBrace) {
        lemma_enough_after(c, c1, budget, 1, 1);
        lemma_parse_enum_items_enough(at(p, c1), 0, (budget - 1) as nat);
        if let Ok(p2) = parse_enum_items(at(p, c1), 0, (budget - 1) as nat) {
            lemma_expect(p2.cursor, TokenView::CloseBrace, ErrorKind::ExpectedCloseBrace);
            if let Ok(c3) = expect(
                p2.cursor,
                TokenView::CloseBrace,
                ErrorKind::ExpectedCloseBrace,
            ) {
                lemma_expect(c3, TokenView::Semicolon, ErrorKind::ExpectedSemicolon);
            }
        }
    }
}

/// A statement parses within a budget that is enough, and reads a token.
pub proof fn lemma_parse_statement_enough(p: ParserView, budget: nat)
    requires
        sound(p.cursor),
        enough(p.cursor, budget, 16),
    ensures
        !ran_out(parse_statement(p, budget)),
        parse_statement(p, budget) matches Ok((_, p1)) ==> moved_on(p.cursor, p1.cursor, true),
    decreases budget,
{
    let b = (budget - 1) as nat;
    let c = p.cursor;
    if starts_declaration(c.current) {
        lemma_parse_typed_enough(p, b);
    } else {
        lemma_advance(c);
        match c.current {
            TokenView::Return => {
                if let Ok(c1) = advance(c) {
                    lemma_enough_after(c, c1, budget, 16, 15);
                    lemma_parse_return_enough(c1, b);
                }
            },
            TokenView::Let => {
                if let Ok(c1) = advance(c) {
                    lemma_enough_after(c, c1, budget, 16, 1);
                    lemma_parse_lets_enough(c1, Seq::empty(), b);
                    if let Ok((_, c2)) = parse_lets(c1, Seq::empty(), b) {
                        lemma_expect(c2, TokenView::Semicolon, ErrorKind::ExpectedSemicolon);
                    }
                }
            },
            TokenView::Print => {
                if let Ok(c1) = advance(c) {
                    lemma_enough_after(c, c1, budget, 16, 1);
                    lemma_parse_print_enough(c1, b);
                }
            },
            TokenView::If => {
                if let Ok(c1) = advance(c) {
                    lemma_enough_after(c, c1, budget, 16, 1);
                    lemma_parse_condition_enough(c1, b);
                    if let Ok((_, c2)) = parse_condition(c1, b) {
                        lemma_enough_after(c, c2, budget, 16, 16);
                        lemma_parse_statement_enough(at(p, c2), b);
                        if let Ok((_, p3)) = parse_statement(at(p, c2), b) {
                            if p3.cursor.current == TokenView::Else {
                                lemma_advance(p3.cursor);
                                if let Ok(c4) = advance(p3.cursor) {
                                    lemma_enough_after(c, c4, budget, 16, 16);
                                    lemma_parse_statement_enough(at(p3, c4), b);
                                }
                            }
                        }
                    }
                }
            },
            TokenView::While => {
                if let Ok(c1) = advance(c) {
                    lemma_enough_after(c, c1, budget, 16, 1);
                    lemma_parse_condition_enough(c1, b);
                    if let Ok((_, c2)) = parse_condition(c1, b) {
                        lemma_enough_after(c, c2, budget, 16, 16);
                        lemma_parse_statement_enough(at(p, c2), b);
                    }
                }
            },
            TokenView::OpenBrace => {
                lemma_parse_block_enough(p, b);
            },
            TokenView::Fn => {
                if let Ok(c1) = advance(c) {
                    lemma_expect_identifier(c1);
                    if let Ok((name, c2)) = expect_identifier(c1) {
                        lemma_enough_after(c, c2, budget, 16, 1);
                        lemma_parse_function_enough(at(p, c2), name, None, b);
                    }
                }
            },
            TokenView::Enum => {
                if let Ok(c1) = advance(c) {
                    lemma_enough_after(c, c1, budget, 16, 1);
                    lemma_parse_enum_enough(at(p, c1), b);
                }
            },
            _ => {
                lemma_parse_expression_statement_enough(c, b);
            },
        }
    }
}

/// A declaration with its type in front parses within a budget that is
/// enough, and reads a token.
pub proof fn lemma_parse_typed_enough(p: ParserView, budget: nat)
    requires
        sound(p.cursor),
        enough(p.cursor, budget, 3),
    ensures
        !ran_out(parse_typed(p, budget)),
        parse_typed(p, budget) matches Ok((_, p1)) ==> moved_on(p.cursor, p1.cursor, true),
    decreases budget,
{
    let b = (budget - 1) as nat;
    let c = p.cursor;
    lemma_parse_type_enough(c, b);
    if let Ok((Some(t), c1)) = parse_type(c, b) {
        lemma_expect_identifier(c1);
        if let Ok((name, c2)) = expect_identifier(c1) {
            if c2.current == TokenView::OpenParen {
                lemma_enough_after(c, c2, budget, 3, 1);
                lemma_parse_function_enough(at(p, c2), name, Some(t), b);
            } else {
                lemma_expect(c2, TokenView::Assign, ErrorKind::ExpectedAssign);
                if let Ok(c3) = expect(c2, TokenView::Assign, ErrorKind::ExpectedAssign) {
                    lemma_enough_after(c, c3, budget, 3, 14);
                    lemma_parse_expression_enough(c3, b);
                    if let Ok((_, c4)) = parse_expression(c3, b) {
                        lemma_expect(c4, TokenView::Semicolon, ErrorKind::ExpectedSemicolon);
                    }
                }
            }
        }
    }
}

/// The parameters and the body of a function parse within a budget that
/// is enough, and read a token.
pub proof fn lemma_parse_function_enough(
    p: ParserView,
    name: Seq<char>,
    return_type: Option<Type>,
    budget: nat,
)
    requires
        sound(p.cursor),
        enough(p.cursor, budget, 1),
    ensures
        !ran_out(parse_function(p, name, return_type, budget)),
        parse_function(p, name, return_type, budget) matches Ok((_, p1)) ==> moved_on(
            p.cursor,
            p1.cursor,
            true,
        ),
    decreases budget,
{
    let b = (budget - 1) as nat;
    let c = p.cursor;
    lemma_expect(c, TokenView::OpenParen, ErrorKind::ExpectedOpenParen);
    if let Ok(c1) = expect(c, TokenView::OpenParen, ErrorKind::ExpectedOpenParen) {
        lemma_enough_after(c, c1, budget, 1, 1);
        lemma_parse_params_enough(c1, Seq::empty(), b);
        if let Ok((_, c2)) = parse_params(c1, Seq::empty(), b) {
            lemma_expect(c2, TokenView::CloseParen, ErrorKind::ExpectedCloseParen);
            if let Ok(c3) = expect(c2, TokenView::CloseParen, ErrorKind::ExpectedCloseParen) {
                lemma_enough_after(c, c3, budget, 1, 1);
                lemma_parse_block_enough(at(p, c3), b);
            }
        }
    }
}

/// A block parses within a budget that is enough, and reads a token.
pub proof fn lemma_parse_block_enough(p: ParserView, budget: nat)
    requires
        sound(p.cursor),
        enough(p.cursor, budget, 1),
    ensures
        !ran_out(parse_block(p, budget)),
        parse_block(p, budget) matches Ok((_, p1)) ==> moved_on(p.cursor, p1.cursor, true),
    decreases budget,
{
    let b = (budget - 1) as nat;
    let c = p.cursor;
    lemma_expect(c, TokenView::OpenBrace, ErrorKind::ExpectedOpenBrace);
    if let Ok(c1) = expect(c, TokenView::OpenBrace, ErrorKind::ExpectedOpenBrace) {
        lemma_enough_after(c, c1, budget, 1, 17);
        lemma_parse_statements_enough(at(p, c1), TokenView::CloseBrace, Seq::empty(), b);
        if let Ok((_, p2)) = parse_statements(at(p, c1), TokenView::CloseBrace, Seq::empty(), b) {
            lemma_advance(p2.cursor);
        }
    }
}

/// Statements parse within a budget that is enough.
pub proof fn lemma_parse_statements_enough(
    p: ParserView,
    end: TokenView,
    done: Seq<StmtView>,
    budget: nat,
)
    requires
        sound(p.cursor),
        enough(p.cursor, budget, 17),
    ensures
        !ran_out(parse_statements(p, end, done, budget)),
        parse_statements(p, end, done, budget) matches Ok((_, p1)) ==> moved_on(
            p.cursor,
            p1.cursor,
            false,
        ),
    decreases budget,
{
    let b = (budget - 1) as nat;
    if p.cursor.current != end {
        lemma_parse_statement_enough(p, b);
        if let Ok((s, p1)) = parse_statement(p, b) {
            lemma_enough_after(p.cursor, p1.cursor, budget, 17, 17);
            lemma_parse_statements_enough(p1, end, done.push(s), b);
        }
    }
}

/// The budget that `run` grants is enough for every text of fewer than
/// 2^59 - 1 characters: the parser never fails for want of budget.
pub proof fn lemma_full_budget_is_enough(source: Seq<char>)
    requires
        source.len() < 0x07ff_ffff_ffff_ffff,
    ensures
        !ran_out(load(source)),
{
    let lexer = start_of(source);
    lemma_lex_token_further(lexer);
    if let Ok(cursor) = open_cursor(lexer) {
        assert(sound(cursor));
        assert(tokens_left(cursor) <= source.len() + 1);
        let p = ParserView { cursor, constants: Map::empty() };
        assert(weight() * tokens_left(cursor) + 17 <= full_budget()) by (nonlinear_arith)
            requires
                tokens_left(cursor) <= 0x07ff_ffff_ffff_ffff,
                weight() == 32,
                full_budget() == 0xffff_ffff_ffff_ffff,
        ;
        lemma_parse_statements_enough(p, TokenView::Eof, Seq::empty(), full_budget());
    }
}

} // verus!
