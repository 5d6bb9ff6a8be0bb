//! The budget decides nothing but whether a program runs to its end: a run
//! that does not use up a budget comes out the same under every larger one.

use vstd::prelude::*;
use crate::ast::{BinOp, ExprView, StmtView, Type};
use crate::error::{ErrorKind, ErrorView};
use crate::grammar::{
    advance, array_suffix, at, binary_levels, binary_op, binary_rest, expect, expect_identifier,
    fail, is_prefix, literal, named_type, parse_arguments, parse_array, parse_assignment,
    parse_binary, parse_block, parse_condition, parse_elements, parse_enum_items, parse_expression,
    parse_function, parse_lets, parse_named, parse_params, parse_parenthesized, parse_postfix,
    parse_primary, parse_program, parse_sizeof, parse_statement, parse_statements, parse_type,
    parse_typed, parse_unary, prefixed, starts_declaration, starts_type, CursorView, ParsedType,
    ParserView,
};
use crate::lexer::TokenView;
use crate::semantics::{
    bind_params, enter_call, eval_expr, eval_list, exec_block, exec_stmt, exec_while, lets_only,
    truthy, with_scopes, ValueView, VmView,
};

verus! {

/// Whether a result is the failure of a budget that was used up.
pub open spec fn ran_out<T>(r: Result<T, ErrorView>) -> bool {
    r matches Err(e) && e.kind == ErrorKind::LimitExceeded
}

/// An expression that evaluates within a budget evaluates to the same
/// under every larger one.
pub proof fn lemma_eval_budget(st: VmView, e: ExprView, small: nat, large: nat)
    requires
        small <= large,
        !ran_out(eval_expr(st, e, small)),
    ensures
        eval_expr(st, e, large) == eval_expr(st, e, small),
    decreases small, 0nat, e, 0nat,
{
    match e {
        ExprView::Ternary { condition, then_branch, else_branch } => {
            lemma_eval_budget(st, *condition, small, large);
            if let Ok((c, s1)) = eval_expr(st, *condition, small) {
                if truthy(c) {
                    lemma_eval_budget(s1, *then_branch, small, large);
                } else {
                    lemma_eval_budget(s1, *else_branch, small, large);
                }
            }
        },
        ExprView::AddressOf(inner) => {
            lemma_eval_budget(st, *inner, small, large);
        },
        ExprView::Deref(inner) => {
            lemma_eval_budget(st, *inner, small, large);
        },
        ExprView::Cast(_, inner) => {
            lemma_eval_budget(st, *inner, small, large);
        },
        ExprView::UnaryOp { op, expr } => {
            lemma_eval_budget(st, *expr, small, large);
        },
        ExprView::ArrayLiteral(items) => {
            lemma_eval_list_budget(st, items, 0, Seq::empty(), small, large);
        },
        ExprView::ArrayIndex(array, index) => {
            lemma_eval_budget(st, *array, small, large);
            if let Ok((_, s1)) = eval_expr(st, *array, small) {
                lemma_eval_budget(s1, *index, small, large);
            }
        },
        ExprView::BinaryOp { op, left, right } => {
            if op == BinOp::Assign {
                match *left {
                    ExprView::Variable(name) => {
                        lemma_eval_budget(st, *right, small, large);
                    },
                    ExprView::ArrayIndex(array, index) => {
                        if let ExprView::Variable(name) = *array {
                            lemma_eval_budget(st, *index, small, large);
                            if let Ok((ValueView::Int(i), s1)) = eval_expr(st, *index, small) {
                                lemma_eval_budget(s1, *right, small, large);
                            }
                        }
                    },
                    _ => {},
                }
            } else {
                lemma_eval_budget(st, *left, small, large);
                if let Ok((_, s1)) = eval_expr(st, *left, small) {
                    lemma_eval_budget(s1, *right, small, large);
                }
            }
        },
        ExprView::FunctionCall { name, args } => {
            if st.functions.contains_key(name) {
                let function = st.functions[name];
                lemma_eval_list_budget(st, args, 0, Seq::empty(), small, large);
                if let Ok((values, s1)) = eval_list(st, args, 0, Seq::empty(), small) {
                    if values.len() == function.params.len() {
                        lemma_exec_budget(
                            enter_call(s1, bind_params(function.params, values)),
                            function.body,
                            (small - 1) as nat,
                            (large - 1) as nat,
                        );
                    }
                }
            }
        },
        _ => {},
    }
}

/// A list of expressions that evaluates within a budget evaluates to the
/// same under every larger one.
pub proof fn lemma_eval_list_budget(
    st: VmView,
    items: Seq<ExprView>,
    from: nat,
    done: Seq<ValueView>,
    small: nat,
    large: nat,
)
    requires
        small <= large,
        !ran_out(eval_list(st, items, from, done, small)),
    ensures
        eval_list(st, items, from, done, large) == eval_list(st, items, from, done, small),
    decreases small, 0nat, items, items.len() - from,
{
    if from < items.len() {
        lemma_eval_budget(st, items[from as int], small, large);
        if let Ok((v, s1)) = eval_expr(st, items[from as int], small) {
            lemma_eval_list_budget(s1, items, from + 1, done.push(v), small, large);
        }
    }
}

/// A statement that runs within a budget leaves the same state under every
/// larger one.
pub proof fn lemma_exec_budget(st: VmView, s: StmtView, small: nat, large: nat)
    requires
        small <= large,
        !ran_out(exec_stmt(st, s, small)),
    ensures
        exec_stmt(st, s, large) == exec_stmt(st, s, small),
    decreases small, 1nat, s, 1nat,
{
    if !st.should_return {
        match s {
            StmtView::Return(e) => {
                lemma_eval_budget(st, e, small, large);
            },
            StmtView::Print(e) => {
                lemma_eval_budget(st, e, small, large);
            },
            StmtView::ExprStmt(e) => {
                lemma_eval_budget(st, e, small, large);
            },
            StmtView::Let { name, value, var_type } => {
                lemma_eval_budget(st, value, small, large);
            },
            StmtView::Assign { name, value } => {
                lemma_eval_budget(st, value, small, large);
            },
            StmtView::If { condition, then_branch, else_branch } => {
                lemma_eval_budget(st, condition, small, large);
                if let Ok((c, s1)) = eval_expr(st, condition, small) {
                    if truthy(c) {
                        lemma_exec_budget(s1, *then_branch, small, large);
                    } else if let Some(other) = else_branch {
                        lemma_exec_budget(s1, *other, small, large);
                    }
                }
            },
            StmtView::While { condition, body } => {
                lemma_exec_while_budget(st, condition, *body, small, large);
            },
            StmtView::Block(stmts) => {
                if lets_only(stmts) {
                    lemma_exec_block_budget(st, stmts, 0, small, large);
                } else {
                    lemma_exec_block_budget(
                        with_scopes(st, st.scopes.push(Map::empty())),
                        stmts,
                        0,
                        small,
                        large,
                    );
                }
            },
            StmtView::Function { .. } => {},
        }
    }
}

/// The statements of a block that run within a budget leave the same state
/// under every larger one.
pub proof fn lemma_exec_block_budget(
    st: VmView,
    stmts: Seq<StmtView>,
    from: nat,
    small: nat,
    large: nat,
)
    requires
        small <= large,
        !ran_out(exec_block(st, stmts, from, small)),
    ensures
        exec_block(st, stmts, from, large) == exec_block(st, stmts, from, small),
    decreases small, 1nat, stmts, stmts.len() - from,
{
    if from < stmts.len() && !st.should_return {
        lemma_exec_budget(st, stmts[from as int], small, large);
        if let Ok(s1) = exec_stmt(st, stmts[from as int], small) {
            lemma_exec_block_budget(s1, stmts, from + 1, small, large);
        }
    }
}

/// A loop that runs within a budget leaves the same state under every
/// larger one.
pub proof fn lemma_exec_while_budget(
    st: VmView,
    condition: ExprView,
    body: StmtView,
    small: nat,
    large: nat,
)
    requires
        small <= large,
        !ran_out(exec_while(st, condition, body, small)),
    ensures
        exec_while(st, condition, body, large) == exec_while(st, condition, body, small),
    decreases small, 1nat, body, 0nat,
{
    if small > 0 {
        let a = (small - 1) as nat;
        let b = (large - 1) as nat;
        lemma_eval_budget(st, condition, a, b);
        if let Ok((c, s1)) = eval_expr(st, condition, a) {
            if truthy(c) {
                lemma_exec_budget(s1, body, a, b);
                if let Ok(s2) = exec_stmt(s1, body, a) {
                    if !s2.should_return {
                        lemma_exec_while_budget(s2, condition, body, a, b);
                    }
                }
            }
        }
    }
}

// ---------------------------------------------------------------------------
// The parser
// ---------------------------------------------------------------------------
/// A type that parses within a budget parses to the same under every
/// larger one.
pub proof fn lemma_parse_type_budget(c: CursorView, small: nat, large: nat)
    requires
        small <= large,
        !ran_out(parse_type(c, small)),
    ensures
        parse_type(c, large) == parse_type(c, small),
    decreases small,
{
    if small > 0 {
        let a = (small - 1) as nat;
        let b = (large - 1) as nat;
        match c.current {
            TokenView::Identifier(name) => {
                if let Some(base) = named_type(name) {
                    if let Ok(c1) = advance(c) {
                        lemma_array_suffix_budget(c1, base, a, b);
                    }
                }
            },
            TokenView::Mul => {
                if let Ok(c1) = advance(c) {
                    lemma_parse_type_budget(c1, a, b);
                }
            },
            _ => {},
        }
    }
}

/// The same of the array lengths after a type name.
pub proof fn lemma_array_suffix_budget(c: CursorView, base: Type, small: nat, large: nat)
    requires
        small <= large,
        !ran_out(array_suffix(c, base, small)),
    ensures
        array_suffix(c, base, large) == array_suffix(c, base, small),
    decreases small,
{
    if small > 0 && c.current == TokenView::OpenBracket {
        if let Ok(c1) = advance(c) {
            if let TokenView::Num(n) = c1.current {
                if let Ok(c2) = advance(c1) {
                    if let Ok(c3) = expect(
                        c2,
                        TokenView::CloseBracket,
                        ErrorKind::ExpectedCloseBracket,
                    ) {
                        lemma_array_suffix_budget(
                            c3,
                            Type::Array(Box::new(base), n as usize),
                            (small - 1) as nat,
                            (large - 1) as nat,
                        );
                    }
                }
            }
        }
    }
}

/// An expression that parses within a budget parses to the same under
/// every larger one.
pub proof fn lemma_parse_expression_budget(c: CursorView, small: nat, large: nat)
    requires
        small <= large,
        !ran_out(parse_expression(c, small)),
    ensures
        parse_expression(c, large) == parse_expression(c, small),
    decreases small,
{
    if small > 0 {
        let a = (small - 1) as nat;
        let b = (large - 1) as nat;
        lemma_parse_assignment_budget(c, a, b);
        if let Ok((_, c1)) = parse_assignment(c, a) {
            if c1.current == TokenView::QuestionMark {
                if let Ok(c2) = advance(c1) {
                    lemma_parse_expression_budget(c2, a, b);
                    if let Ok((_, c3)) = parse_expression(c2, a) {
                        if let Ok(c4) = expect(c3, TokenView::Colon, ErrorKind::ExpectedColon) {
                            lemma_parse_expression_budget(c4, a, b);
                        }
                    }
                }
            }
        }
    }
}

/// The same of an assignment.
pub proof fn lemma_parse_assignment_budget(c: CursorView, small: nat, large: nat)
    requires
        small <= large,
        !ran_out(parse_assignment(c, small)),
    ensures
        parse_assignment(c, large) == parse_assignment(c, small),
    decreases small,
{
    if small > 0 {
        let a = (small - 1) as nat;
        let b = (large - 1) as nat;
        lemma_parse_binary_budget(c, 0, a, b);
        if let Ok((_, c1)) = parse_binary(c, 0, a) {
            if c1.current == TokenView::Assign {
                if let Ok(c2) = advance(c1) {
                    lemma_parse_assignment_budget(c2, a, b);
                }
            }
        }
    }
}

/// The same of a chain of binary operators.
pub proof fn lemma_parse_binary_budget(c: CursorView, level: u8, small: nat, large: nat)
    requires
        small <= large,
        !ran_out(parse_binary(c, level, small)),
    ensures
        parse_binary(c, level, large) == parse_binary(c, level, small),
    decreases small,
{
    if small > 0 {
        let a = (small - 1) as nat;
        let b = (large - 1) as nat;
        if level >= binary_levels() {
            lemma_parse_unary_budget(c, a, b);
        } else {
            lemma_parse_binary_budget(c, (level + 1) as u8, a, b);
            if let Ok((left, c1)) = parse_binary(c, (level + 1) as u8, a) {
                lemma_binary_rest_budget(c1, level, left, a, b);
            }
        }
    }
}

/// The same of the rest of a chain of binary operators.
pub proof fn lemma_binary_rest_budget(
    c: CursorView,
    level: u8,
    left: ExprView,
    small: nat,
    large: nat,
)
    requires
        small <= large,
        !ran_out(binary_rest(c, level, left, small)),
    ensures
        binary_rest(c, level, left, large) == binary_rest(c, level, left, small),
    decreases small,
{
    if small > 0 {
        let a = (small - 1) as nat;
        let b = (large - 1) as nat;
        if let Some(op) = binary_op(level, c.current) {
            if let Ok(c1) = advance(c) {
                lemma_parse_binary_budget(c1, (level + 1) as u8, a, b);
                if let Ok((right, c2)) = parse_binary(c1, (level + 1) as u8, a) {
                    lemma_binary_rest_budget(
                        c2,
                        level,
                        ExprView::BinaryOp { op, left: Box::new(left), right: Box::new(right) },
                        a,
                        b,
                    );
                }
            }
        }
    }
}

/// The same of a unary expression.
pub proof fn lemma_parse_unary_budget(c: CursorView, small: nat, large: nat)
    requires
        small <= large,
        !ran_out(parse_unary(c, small)),
    ensures
        parse_unary(c, large) == parse_unary(c, small),
    decreases small,
{
    if small > 0 {
        let a = (small - 1) as nat;
        let b = (large - 1) as nat;
        if is_prefix(c.current) {
            if let Ok(c1) = advance(c) {
                lemma_parse_unary_budget(c1, a, b);
                if let Ok((operand, c2)) = parse_unary(c1, a) {
                    lemma_parse_postfix_budget(c2, prefixed(c.current, operand).unwrap(), a, b);
                }
            }
        } else {
            lemma_parse_primary_budget(c, a, b);
            if let Ok((e, c1)) = parse_primary(c, a) {
                lemma_parse_postfix_budget(c1, e, a, b);
            }
        }
    }
}

/// The same of the postfix operators after an expression.
pub proof fn lemma_parse_postfix_budget(c: CursorView, e: ExprView, small: nat, large: nat)
    requires
        small <= large,
        !ran_out(parse_postfix(c, e, small)),
    ensures
        parse_postfix(c, e, large) == parse_postfix(c, e, small),
    decreases small,
{
    if small > 0 {
        let a = (small - 1) as nat;
        let b = (large - 1) as nat;
        if c.current == TokenView::PlusPlus {
            if let Ok(c1) = advance(c) {
                lemma_parse_postfix_budget(c1, ExprView::PostInc(Box::new(e)), a, b);
            }
        } else if c.current == TokenView::MinusMinus {
            if let Ok(c1) = advance(c) {
                lemma_parse_postfix_budget(c1, ExprView::PostDec(Box::new(e)), a, b);
            }
        }
    }
}

/// The same of the elements of an array literal.
pub proof fn lemma_parse_elements_budget(
    c: CursorView,
    close: TokenView,
    done: Seq<ExprView>,
    small: nat,
    large: nat,
)
    requires
        small <= large,
        !ran_out(parse_elements(c, close, done, small)),
    ensures
        parse_elements(c, close, done, large) == parse_elements(c, close, done, small),
    decreases small,
{
    if small > 0 && c.current != close {
        let a = (small - 1) as nat;
        let b = (large - 1) as nat;
        lemma_parse_expression_budget(c, a, b);
        if let Ok((e, c1)) = parse_expression(c, a) {
            if c1.current == TokenView::Comma {
                if let Ok(c2) = advance(c1) {
                    lemma_parse_elements_budget(c2, close, done.push(e), a, b);
                }
            }
        }
    }
}

/// The same of the arguments of a call.
pub proof fn lemma_parse_arguments_budget(
    c: CursorView,
    done: Seq<ExprView>,
    small: nat,
    large: nat,
)
    requires
        small <= large,
        !ran_out(parse_arguments(c, done, small)),
    ensures
        parse_arguments(c, done, large) == parse_arguments(c, done, small),
    decreases small,
{
    if small > 0 && c.current != TokenView::CloseParen {
        let a = (small - 1) as nat;
        let b = (large - 1) as nat;
        lemma_parse_expression_budget(c, a, b);
        if let Ok((e, c1)) = parse_expression(c, a) {
            if c1.current == TokenView::Comma {
                if let Ok(c2) = advance(c1) {
                    lemma_parse_arguments_budget(c2, done.push(e), a, b);
                }
            } else {
                lemma_parse_arguments_budget(c1, done.push(e), a, b);
            }
        }
    }
}

/// The same of an array literal.
pub proof fn lemma_parse_array_budget(
    c: CursorView,
    close: TokenView,
    kind: ErrorKind,
    small: nat,
    large: nat,
)
    requires
        small <= large,
        !ran_out(parse_array(c, close, kind, small)),
    ensures
        parse_array(c, close, kind, large) == parse_array(c, close, kind, small),
    decreases small,
{
    if small > 0 {
        lemma_parse_elements_budget(
            c,
            close,
            Seq::empty(),
            (small - 1) as nat,
            (large - 1) as nat,
        );
    }
}

/// The same of what follows an identifier.
pub proof fn lemma_parse_named_budget(c: CursorView, name: Seq<char>, small: nat, large: nat)
    requires
        small <= large,
        !ran_out(parse_named(c, name, small)),
    ensures
        parse_named(c, name, large) == parse_named(c, name, small),
    decreases small,
{
    if small > 0 {
        let a = (small - 1) as nat;
        let b = (large - 1) as nat;
        match c.current {
            TokenView::OpenParen => {
                if let Ok(c1) = advance(c) {
                    lemma_parse_arguments_budget(c1, Seq::empty(), a, b);
                }
            },
            TokenView::OpenBracket => {
                if let Ok(c1) = advance(c) {
                    lemma_parse_expression_budget(c1, a, b);
                }
            },
            _ => {},
        }
    }
}

/// The same of what follows an opening parenthesis.
pub proof fn lemma_parse_parenthesized_budget(c: CursorView, small: nat, large: nat)
    requires
        small <= large,
        !ran_out(parse_parenthesized(c, small)),
    ensures
        parse_parenthesized(c, large) == parse_parenthesized(c, small),
    decreases small,
{
    if small > 0 {
        let a = (small - 1) as nat;
        let b = (large - 1) as nat;
        if starts_type(c.current) {
            lemma_parse_type_budget(c, a, b);
            if let Ok((Some(t), c1)) = parse_type(c, a) {
                if let Ok(c2) = expect(c1, TokenView::CloseParen, ErrorKind::ExpectedCloseParen) {
                    lemma_parse_unary_budget(c2, a, b);
                }
            }
        } else {
            lemma_parse_expression_budget(c, a, b);
        }
    }
}

/// The same of `sizeof`.
pub proof fn lemma_parse_sizeof_budget(c: CursorView, small: nat, large: nat)
    requires
        small <= large,
        !ran_out(parse_sizeof(c, small)),
    ensures
        parse_sizeof(c, large) == parse_sizeof(c, small),
    decreases small,
{
    if small > 0 {
        if let Ok(c1) = expect(c, TokenView::OpenParen, ErrorKind::ExpectedOpenParen) {
            lemma_parse_type_budget(c1, (small - 1) as nat, (large - 1) as nat);
        }
    }
}

/// The same of a primary expression.
pub proof fn lemma_parse_primary_budget(c: CursorView, small: nat, large: nat)
    requires
        small <= large,
        !ran_out(parse_primary(c, small)),
    ensures
        parse_primary(c, large) == parse_primary(c, small),
    decreases small,
{
    if small > 0 && literal(c.current) is None {
        let a = (small - 1) as nat;
        let b = (large - 1) as nat;
        if let Ok(c1) = advance(c) {
            match c.current {
                TokenView::Sizeof => {
                    lemma_parse_sizeof_budget(c1, a, b);
                },
                TokenView::OpenBrace => {
                    lemma_parse_array_budget(
                        c1,
                        TokenView::CloseBrace,
                        ErrorKind::ExpectedCloseBrace,
                        a,
                        b,
                    );
                },
                TokenView::OpenBracket => {
                    lemma_parse_array_budget(
                        c1,
                        TokenView::CloseBracket,
                        ErrorKind::ExpectedCloseBracket,
                        a,
                        b,
                    );
                },
                TokenView::Identifier(name) => {
                    lemma_parse_named_budget(c1, name, a, b);
                },
                TokenView::OpenParen => {
                    lemma_parse_parenthesized_budget(c1, a, b);
                },
                _ => {},
            }
        }
    }
}

/// The same of the declarations of a `let`.
pub proof fn lemma_parse_lets_budget(c: CursorView, done: Seq<StmtView>, small: nat, large: nat)
    requires
        small <= large,
        !ran_out(parse_lets(c, done, small)),
    ensures
        parse_lets(c, done, large) == parse_lets(c, done, small),
    decreases small,
{
    if small > 0 {
        let a = (small - 1) as nat;
        let b = (large - 1) as nat;
        if let Ok((name, c1)) = expect_identifier(c) {
            let typed: ParsedType = if c1.current == TokenView::Colon {
                match advance(c1) {
                    Ok(c2) => parse_type(c2, a),
                    Err(e) => Err(e),
                }
            } else {
                Ok((None, c1))
            };
            if c1.current == TokenView::Colon {
                if let Ok(c2) = advance(c1) {
                    lemma_parse_type_budget(c2, a, b);
                }
            }
            if let Ok((t, c3)) = typed {
                if let Ok(c4) = expect(c3, TokenView::Assign, ErrorKind::ExpectedAssign) {
                    lemma_parse_expression_budget(c4, a, b);
                    if let Ok((value, c5)) = parse_expression(c4, a) {
                        let decl = StmtView::Let {
                            name,
                            value,
                            var_type: Some(
                                match t {
                                    Some(t) => t,
                                    None => Type::Int,
                                },
                            ),
                        };
                        if c5.current == TokenView::Comma {
                            if let Ok(c6) = advance(c5) {
                                lemma_parse_lets_budget(c6, done.push(decl), a, b);
                            }
                        }
                    }
                }
            }
        }
    }
}

/// The same of the parameters of a function.
pub proof fn lemma_parse_params_budget(
    c: CursorView,
    done: Seq<Seq<char>>,
    small: nat,
    large: nat,
)
    requires
        small <= large,
        !ran_out(parse_params(c, done, small)),
    ensures
        parse_params(c, done, large) == parse_params(c, done, small),
    decreases small,
{
    if small > 0 && c.current != TokenView::CloseParen {
        if let Ok((name, c1)) = expect_identifier(c) {
            if c1.current == TokenView::Comma {
                if let Ok(c2) = advance(c1) {
                    lemma_parse_params_budget(
                        c2,
                        done.push(name),
                        (small - 1) as nat,
                        (large - 1) as nat,
                    );
                }
            }
        }
    }
}

/// The same of the constants of an `enum`.
pub proof fn lemma_parse_enum_items_budget(p: ParserView, value: i32, small: nat, large: nat)
    requires
        small <= large,
        !ran_out(parse_enum_items(p, value, small)),
    ensures
        parse_enum_items(p, value, large) == parse_enum_items(p, value, small),
    decreases small,
{
    if small > 0 && p.cursor.current != TokenView::CloseBrace {
        if let Ok((name, c1)) = expect_identifier(p.cursor) {
            let numbered: Result<(i32, CursorView), ErrorView> = if c1.current
                == TokenView::Assign {
                match advance(c1) {
                    Ok(c2) => match c2.current {
                        TokenView::Num(n) => match advance(c2) {
                            Ok(c3) => Ok((n, c3)),
                            Err(e) => Err(e),
                        },
                        _ => Err(fail(c2, ErrorKind::ExpectedNumber)),
                    },
                    Err(e) => Err(e),
                }
            } else {
                Ok((value, c1))
            };
            if let Ok((n, c4)) = numbered {
                if c4.current == TokenView::Comma {
                    if let Ok(c5) = advance(c4) {
                        lemma_parse_enum_items_budget(
                            ParserView { cursor: c5, constants: p.constants.insert(name, n) },
                            n.wrapping_add(1),
                            (small - 1) as nat,
                            (large - 1) as nat,
                        );
                    }
                }
            }
        }
    }
}

/// A statement that parses within a budget parses to the same under every
/// larger one.
pub proof fn lemma_parse_statement_budget(p: ParserView, small: nat, large: nat)
    requires
        small <= large,
        !ran_out(parse_statement(p, small)),
    ensures
        parse_statement(p, large) == parse_statement(p, small),
    decreases small,
{
    if small > 0 {
        let a = (small - 1) as nat;
        let b = (large - 1) as nat;
        let c = p.cursor;
        if starts_declaration(c.current) {
            lemma_parse_typed_budget(p, a, b);
        } else {
            match c.current {
                TokenView::Return => {
                    if let Ok(c1) = advance(c) {
                        if a > 0 && !(c1.current == TokenView::Semicolon || c1.current
                            == TokenView::CloseBrace) {
                            lemma_parse_expression_budget(c1, (a - 1) as nat, (b - 1) as nat);
                        }
                    }
                },
                TokenView::Let => {
                    if let Ok(c1) = advance(c) {
                        lemma_parse_lets_budget(c1, Seq::empty(), a, b);
                    }
                },
                TokenView::Print => {
                    if let Ok(c1) = advance(c) {
                        if a > 0 {
                            if let Ok(c2) = expect(
                                c1,
                                TokenView::OpenParen,
                                ErrorKind::ExpectedOpenParen,
                            ) {
                                lemma_parse_expression_budget(c2, (a - 1) as nat, (b - 1) as nat);
                            }
                        }
                    }
                },
                TokenView::If => {
                    if let Ok(c1) = advance(c) {
                        lemma_parse_condition_budget(c1, a, b);
                        if let Ok((_, c2)) = parse_condition(c1, a) {
                            lemma_parse_statement_budget(at(p, c2), a, b);
                            if let Ok((_, p3)) = parse_statement(at(p, c2), a) {
                                if p3.cursor.current == TokenView::Else {
                                    if let Ok(c4) = advance(p3.cursor) {
                                        lemma_parse_statement_budget(at(p3, c4), a, b);
                                    }
                                }
                            }
                        }
                    }
                },
                TokenView::While => {
                    if let Ok(c1) = advance(c) {
                        lemma_parse_condition_budget(c1, a, b);
                        if let Ok((_, c2)) = parse_condition(c1, a) {
                            lemma_parse_statement_budget(at(p, c2), a, b);
                        }
                    }
                },
                TokenView::OpenBrace => {
                    lemma_parse_block_budget(p, a, b);
                },
                TokenView::Fn => {
                    if let Ok(c1) = advance(c) {
                        if let Ok((name, c2)) = expect_identifier(c1) {
                            lemma_parse_function_budget(at(p, c2), name, None, a, b);
                        }
                    }
                },
                TokenView::Enum => {
                    if let Ok(c1) = advance(c) {
                        if a > 0 {
                            if let Ok(c2) = expect(
                                c1,
                                TokenView::OpenBrace,
                                ErrorKind::ExpectedOpenBrace,
                            ) {
                                lemma_parse_enum_items_budget(
                                    at(at(p, c1), c2),
                                    0,
                                    (a - 1) as nat,
                                    (b - 1) as nat,
                                );
                            }
                        }
                    }
                },
                _ => {
                    if a > 0 {
                        lemma_parse_expression_budget(c, (a - 1) as nat, (b - 1) as nat);
                    }
                },
            }
        }
    }
}

/// The same of the condition of an `if` or a `while`.
pub proof fn lemma_parse_condition_budget(c: CursorView, small: nat, large: nat)
    requires
        small <= large,
        !ran_out(parse_condition(c, small)),
    ensures
        parse_condition(c, large) == parse_condition(c, small),
    decreases small,
{
    if small > 0 {
        if let Ok(c1) = expect(c, TokenView::OpenParen, ErrorKind::ExpectedOpenParen) {
            lemma_parse_expression_budget(c1, (small - 1) as nat, (large - 1) as nat);
        }
    }
}

/// The same of a declaration with its type in front.
pub proof fn lemma_parse_typed_budget(p: ParserView, small: nat, large: nat)
    requires
        small <= large,
        !ran_out(parse_typed(p, small)),
    ensures
        parse_typed(p, large) == parse_typed(p, small),
    decreases small,
{
    if small > 0 {
        let a = (small - 1) as nat;
        let b = (large - 1) as nat;
        lemma_parse_type_budget(p.cursor, a, b);
        if let Ok((Some(t), c1)) = parse_type(p.cursor, a) {
            if let Ok((name, c2)) = expect_identifier(c1) {
                if c2.current == TokenView::OpenParen {
                    lemma_parse_function_budget(at(p, c2), name, Some(t), a, b);
                } else {
                    if let Ok(c3) = expect(c2, TokenView::Assign, ErrorKind::ExpectedAssign) {
                        lemma_parse_expression_budget(c3, a, b);
                    }
                }
            }
        }
    }
}

/// The same of the parameters and the body of a function.
pub proof fn lemma_parse_function_budget(
    p: ParserView,
    name: Seq<char>,
    return_type: Option<Type>,
    small: nat,
    large: nat,
)
    requires
        small <= large,
        !ran_out(parse_function(p, name, return_type, small)),
    ensures
        parse_function(p, name, return_type, large) == parse_function(p, name, return_type, small),
    decreases small,
{
    if small > 0 {
        let a = (small - 1) as nat;
        let b = (large - 1) as nat;
        if let Ok(c1) = expect(p.cursor, TokenView::OpenParen, ErrorKind::ExpectedOpenParen) {
            lemma_parse_params_budget(c1, Seq::empty(), a, b);
            if let Ok((params, c2)) = parse_params(c1, Seq::empty(), a) {
                if let Ok(c3) = expect(c2, TokenView::CloseParen, ErrorKind::ExpectedCloseParen) {
                    lemma_parse_block_budget(at(p, c3), a, b);
                }
            }
        }
    }
}

/// The same of a block.
pub proof fn lemma_parse_block_budget(p: ParserView, small: nat, large: nat)
    requires
        small <= large,
        !ran_out(parse_block(p, small)),
    ensures
        parse_block(p, large) == parse_block(p, small),
    decreases small,
{
    if small > 0 {
        if let Ok(c1) = expect(p.cursor, TokenView::OpenBrace, ErrorKind::ExpectedOpenBrace) {
            lemma_parse_statements_budget(
                at(p, c1),
                TokenView::CloseBrace,
                Seq::empty(),
                (small - 1) as nat,
                (large - 1) as nat,
            );
        }
    }
}

/// Statements that parse within a budget parse to the same under every
/// larger one.
pub proof fn lemma_parse_statements_budget(
    p: ParserView,
    end: TokenView,
    done: Seq<StmtView>,
    small: nat,
    large: nat,
)
    requires
        small <= large,
        !ran_out(parse_statements(p, end, done, small)),
    ensures
        parse_statements(p, end, done, large) == parse_statements(p, end, done, small),
    decreases small,
{
    if small > 0 && p.cursor.current != end {
        let a = (small - 1) as nat;
        let b = (large - 1) as nat;
        lemma_parse_statement_budget(p, a, b);
        if let Ok((s, p1)) = parse_statement(p, a) {
            lemma_parse_statements_budget(p1, end, done.push(s), a, b);
        }
    }
}

/// A program that parses within a budget parses to the same under every
/// larger one.
pub proof fn lemma_parse_program_budget(p: ParserView, small: nat, large: nat)
    requires
        small <= large,
        !ran_out(parse_program(p, small)),
    ensures
        parse_program(p, large) == parse_program(p, small),
{
    lemma_parse_statements_budget(p, TokenView::Eof, Seq::empty(), small, large);
}

} // verus!
