//! The parser: recursive descent over the token stream, one token of
//! look-ahead, no backtracking. It builds what `crate::grammar` defines.

use vstd::prelude::*;
use crate::ast::{
    exprs_view, names_view, stmts_view, BinOp, Expr, ExprView, Stmt, StmtView, Type, UnOp,
};
use crate::error::{Error, ErrorKind, ErrorView};
use crate::grammar::{
    advance, array_suffix, at, binary_levels, binary_op, binary_rest, expect, expect_identifier,
    fail, fail_named, is_prefix, literal, named_type, open_cursor, parse_arguments, parse_array,
    parse_assignment, parse_binary, parse_block, parse_condition, parse_elements, parse_enum,
    parse_enum_items, parse_expression, parse_expression_statement, parse_function, parse_lets,
    parse_named, parse_params, parse_parenthesized, parse_postfix, parse_primary, parse_print,
    parse_program, parse_return, parse_sizeof, parse_statement, parse_statements, parse_type,
    parse_typed, parse_unary, prefixed, starts_declaration, starts_type, CursorView, Moved,
    ParsedExpr, ParsedExprs, ParsedSimple, ParsedStmt, ParsedStmts, ParsedType, ParserView,
};
use crate::lexer::{same_token, spells, Lexer, Token, TokenView};
use crate::vm::Vm;

verus! {

/// The token stream: the tokenizer and the one token read ahead.
pub struct Cursor {
    /// The tokenizer.
    pub lexer: Lexer,
    /// The token read ahead.
    pub current: Token,
}

impl View for Cursor {
    type V = CursorView;

    open spec fn view(&self) -> CursorView {
        CursorView { lexer: self.lexer@, current: self.current@ }
    }
}

/// Whether a step of the token stream did what the grammar says.
pub open spec fn moved(res: Result<(), Error>, after: CursorView, meant: Moved) -> bool {
    match res {
        Ok(_) => meant == Ok::<CursorView, ErrorView>(after),
        Err(e) => meant == Err::<CursorView, ErrorView>(e@),
    }
}

/// Whether a parsed expression and the token stream after it are what the
/// grammar says.
pub open spec fn parsed_expr(
    res: Result<Expr, Error>,
    after: CursorView,
    meant: ParsedExpr,
) -> bool {
    match res {
        Ok(e) => meant == Ok::<(ExprView, CursorView), ErrorView>((e@, after)),
        Err(e) => meant == Err::<(ExprView, CursorView), ErrorView>(e@),
    }
}

/// Whether a parsed list of expressions and the token stream after it are
/// what the grammar says.
pub open spec fn parsed_exprs(
    res: Result<Vec<Expr>, Error>,
    after: CursorView,
    meant: ParsedExprs,
) -> bool {
    match res {
        Ok(items) => meant == Ok::<(Seq<ExprView>, CursorView), ErrorView>(
            (exprs_view(items), after),
        ),
        Err(e) => meant == Err::<(Seq<ExprView>, CursorView), ErrorView>(e@),
    }
}

/// Whether a parsed type and the token stream after it are what the grammar
/// says.
pub open spec fn parsed_type(
    res: Result<Option<Type>, Error>,
    after: CursorView,
    meant: ParsedType,
) -> bool {
    match res {
        Ok(t) => meant == Ok::<(Option<Type>, CursorView), ErrorView>((t, after)),
        Err(e) => meant == Err::<(Option<Type>, CursorView), ErrorView>(e@),
    }
}

/// The type that a type name stands for.
fn type_of_name(name: &String) -> (out: Option<Type>)
    ensures
        out == named_type(name@),
{
    if spells(name, "int") {
        Some(Type::Int)
    } else if spells(name, "char") {
        Some(Type::Char)
    } else if spells(name, "bool") {
        Some(Type::Char)
    } else if spells(name, "str") {
        Some(Type::Pointer(Box::new(Type::Char)))
    } else if spells(name, "void") {
        Some(Type::Void)
    } else {
        None
    }
}

/// The binary operator that a token is on a level of precedence.
fn binary_operator(level: u8, token: &Token) -> (out: Option<BinOp>)
    ensures
        out == binary_op(level, token@),
{
    match (level, token) {
        (0, Token::Or) => Some(BinOp::Or),
        (1, Token::And) => Some(BinOp::And),
        (2, Token::BitOr) => Some(BinOp::BitOr),
        (3, Token::BitXor) => Some(BinOp::BitXor),
        (4, Token::BitAnd) => Some(BinOp::BitAnd),
        (5, Token::Equal) => Some(BinOp::Equal),
        (5, Token::NotEqual) => Some(BinOp::NotEqual),
        (5, Token::LessThan) => Some(BinOp::LessThan),
        (5, Token::GreaterThan) => Some(BinOp::GreaterThan),
        (5, Token::LessEqual) => Some(BinOp::LessEqual),
        (5, Token::GreaterEqual) => Some(BinOp::GreaterEqual),
        (6, Token::Shl) => Some(BinOp::Shl),
        (6, Token::Shr) => Some(BinOp::Shr),
        (7, Token::Add) => Some(BinOp::Add),
        (7, Token::Sub) => Some(BinOp::Sub),
        (8, Token::Mul) => Some(BinOp::Mul),
        (8, Token::Div) => Some(BinOp::Div),
        (8, Token::Mod) => Some(BinOp::Mod),
        _ => None,
    }
}

/// The prefix operator that a token is, applied to `operand`.
fn apply_prefix(token: &Token, operand: Expr) -> (out: Option<Expr>)
    ensures
        match out {
            Some(e) => prefixed(token@, operand@) == Some(e@),
            None => prefixed(token@, operand@) is None,
        },
{
    match token {
        Token::Not => Some(Expr::UnaryOp { op: UnOp::Not, expr: Box::new(operand) }),
        Token::AddressOf => Some(Expr::AddressOf(Box::new(operand))),
        Token::BitAnd => Some(Expr::AddressOf(Box::new(operand))),
        Token::Deref => Some(Expr::Deref(Box::new(operand))),
        Token::Mul => Some(Expr::Deref(Box::new(operand))),
        Token::PlusPlus => Some(Expr::PreInc(Box::new(operand))),
        Token::MinusMinus => Some(Expr::PreDec(Box::new(operand))),
        _ => None,
    }
}

/// Whether a token is a prefix operator.
fn prefix_token(token: &Token) -> (out: bool)
    ensures
        out == is_prefix(token@),
{
    match token {
        Token::Not => true,
        Token::AddressOf => true,
        Token::BitAnd => true,
        Token::Deref => true,
        Token::Mul => true,
        Token::PlusPlus => true,
        Token::MinusMinus => true,
        _ => false,
    }
}

/// The literal that a token is.
fn literal_of(token: &Token) -> (out: Option<Expr>)
    ensures
        match out {
            Some(e) => literal(token@) == Some(e@),
            None => literal(token@) is None,
        },
{
    match token {
        Token::Num(n) => Some(Expr::Number(*n)),
        Token::True => Some(Expr::Boolean(true)),
        Token::False => Some(Expr::Boolean(false)),
        Token::Char(c) => Some(Expr::Char(*c)),
        Token::StringLiteral(s) => Some(Expr::StringLiteral(s.clone())),
        _ => None,
    }
}

impl Cursor {
    /// The token stream at the start of what `lexer` has left to read.
    pub fn new(lexer: Lexer) -> (res: Result<Cursor, Error>)
        ensures
            match res {
                Ok(cursor) => open_cursor(lexer@) == Ok::<CursorView, ErrorView>(cursor@),
                Err(e) => open_cursor(lexer@) == Err::<CursorView, ErrorView>(e@),
            },
    {
        let mut cursor = Cursor { lexer, current: Token::Eof };
        match cursor.next() {
            Ok(_) => Ok(cursor),
            Err(e) => Err(e),
        }
    }

    /// Reads the next token.
    pub fn next(&mut self) -> (res: Result<(), Error>)
        ensures
            moved(res, final(self)@, advance(old(self)@)),
    {
        match self.lexer.next_token() {
            Ok(token) => {
                self.current = token;
                Ok(())
            },
            Err(e) => Err(e),
        }
    }

    /// Whether the current token is `token`.
    pub fn at(&self, token: &Token) -> (out: bool)
        ensures
            out == (self@.current == token@),
    {
        same_token(&self.current, token)
    }

    /// A failure at the place reached.
    pub fn fail(&self, kind: ErrorKind) -> (out: Error)
        ensures
            out@ == fail(self@, kind),
    {
        let (line, col) = self.lexer.get_position();
        Error { kind, name: String::new(), line, col }
    }

    /// A failure at the place reached that concerns a name.
    pub fn fail_named(&self, kind: ErrorKind, name: &String) -> (out: Error)
        ensures
            out@ == fail_named(self@, kind, name@),
    {
        let (line, col) = self.lexer.get_position();
        Error { kind, name: name.clone(), line, col }
    }

    /// Reads `token`, which must be the current one.
    pub fn expect(&mut self, token: &Token, kind: ErrorKind) -> (res: Result<(), Error>)
        ensures
            moved(res, final(self)@, expect(old(self)@, token@, kind)),
    {
        if self.at(token) {
            self.next()
        } else {
            Err(self.fail(kind))
        }
    }

    /// Reads an identifier, which must be the current token.
    pub fn expect_identifier(&mut self) -> (res: Result<String, Error>)
        ensures
            match res {
                Ok(name) => expect_identifier(old(self)@) == Ok::<
                    (Seq<char>, CursorView),
                    ErrorView,
                >((name@, final(self)@)),
                Err(e) => expect_identifier(old(self)@) == Err::<
                    (Seq<char>, CursorView),
                    ErrorView,
                >(e@),
            },
    {
        let name = match &self.current {
            Token::Identifier(name) => name.clone(),
            _ => {
                return Err(self.fail(ErrorKind::ExpectedIdentifier));
            },
        };
        self.next()?;
        Ok(name)
    }

    /// The identifier that is the current token, if it is one.
    pub fn identifier(&self) -> (out: Option<String>)
        ensures
            match out {
                Some(name) => self@.current == TokenView::Identifier(name@),
                None => !(self@.current is Identifier),
            },
    {
        match &self.current {
            Token::Identifier(name) => Some(name.clone()),
            _ => None,
        }
    }

    /// Whether the current token can start a type.
    fn at_type(&self) -> (out: bool)
        ensures
            out == starts_type(self@.current),
    {
        match &self.current {
            Token::Identifier(name) => type_of_name(name).is_some(),
            Token::Mul => true,
            _ => false,
        }
    }

    /// Parses a type, if one is there.
    pub fn parse_type(&mut self, budget: u64) -> (res: Result<Option<Type>, Error>)
        ensures
            parsed_type(res, final(self)@, parse_type(old(self)@, budget as nat)),
        decreases budget,
    {
        if budget == 0 {
            return Err(self.fail(ErrorKind::LimitExceeded));
        }
        match &self.current {
            Token::Identifier(name) => {
                let base = match type_of_name(name) {
                    Some(base) => base,
                    None => {
                        return Err(self.fail_named(ErrorKind::UnknownType, name));
                    },
                };
                self.next()?;
                self.array_suffix(base, budget - 1)
            },
            Token::Mul => {
                self.next()?;
                match self.parse_type(budget - 1)? {
                    Some(inner) => Ok(Some(Type::Pointer(Box::new(inner)))),
                    None => Ok(None),
                }
            },
            _ => Ok(None),
        }
    }

    /// Parses the array lengths after a type name.
    fn array_suffix(&mut self, base: Type, budget: u64) -> (res: Result<Option<Type>, Error>)
        ensures
            parsed_type(res, final(self)@, array_suffix(old(self)@, base, budget as nat)),
    {
        let ghost meant = array_suffix(self@, base, budget as nat);
        let mut t = base;
        let mut left = budget;
        loop
            invariant
                meant == array_suffix(old(self)@, base, budget as nat),
                meant == array_suffix(self@, t, left as nat),
            decreases left,
        {
            if left == 0 {
                return Err(self.fail(ErrorKind::LimitExceeded));
            }
            if !self.at(&Token::OpenBracket) {
                return Ok(Some(t));
            }
            match self.next() {
                Ok(_) => {},
                Err(e) => {
                    return Err(e);
                },
            }
            let n = match &self.current {
                Token::Num(n) => *n,
                _ => {
                    return Err(self.fail(ErrorKind::ExpectedNumber));
                },
            };
            match self.next() {
                Ok(_) => {},
                Err(e) => {
                    return Err(e);
                },
            }
            match self.expect(&Token::CloseBracket, ErrorKind::ExpectedCloseBracket) {
                Ok(_) => {},
                Err(e) => {
                    return Err(e);
                },
            }
            t = Type::Array(Box::new(t), #[verifier::truncate] (n as usize));
            left -= 1;
        }
    }

    /// Parses an expression.
    pub fn parse_expression(&mut self, budget: u64) -> (res: Result<Expr, Error>)
        ensures
            parsed_expr(res, final(self)@, parse_expression(old(self)@, budget as nat)),
        decreases budget,
    {
        if budget == 0 {
            return Err(self.fail(ErrorKind::LimitExceeded));
        }
        let condition = self.parse_assignment(budget - 1)?;
        if self.at(&Token::QuestionMark) {
            self.next()?;
            let then_branch = self.parse_expression(budget - 1)?;
            self.expect(&Token::Colon, ErrorKind::ExpectedColon)?;
            let else_branch = self.parse_expression(budget - 1)?;
            Ok(
                Expr::Ternary {
                    condition: Box::new(condition),
                    then_branch: Box::new(then_branch),
                    else_branch: Box::new(else_branch),
                },
            )
        } else {
            Ok(condition)
        }
    }

    /// Parses an assignment.
    fn parse_assignment(&mut self, budget: u64) -> (res: Result<Expr, Error>)
        ensures
            parsed_expr(res, final(self)@, parse_assignment(old(self)@, budget as nat)),
        decreases budget,
    {
        if budget == 0 {
            return Err(self.fail(ErrorKind::LimitExceeded));
        }
        let left = self.parse_binary(0, budget - 1)?;
        if self.at(&Token::Assign) {
            self.next()?;
            let right = self.parse_assignment(budget - 1)?;
            let target = match &left {
                Expr::Variable(_) => true,
                Expr::ArrayIndex(_, _) => true,
                _ => false,
            };
            if target {
                Ok(
                    Expr::BinaryOp {
                        op: BinOp::Assign,
                        left: Box::new(left),
                        right: Box::new(right),
                    },
                )
            } else {
                Err(self.fail(ErrorKind::InvalidAssignmentTarget))
            }
        } else {
            Ok(left)
        }
    }

    /// Parses a chain of the binary operators of one level.
    fn parse_binary(&mut self, level: u8, budget: u64) -> (res: Result<Expr, Error>)
        requires
            level <= binary_levels(),
        ensures
            parsed_expr(res, final(self)@, parse_binary(old(self)@, level, budget as nat)),
        decreases budget,
    {
        if budget == 0 {
            return Err(self.fail(ErrorKind::LimitExceeded));
        }
        if level >= 9 {
            return self.parse_unary(budget - 1);
        }
        let first = self.parse_binary(level + 1, budget - 1)?;
        let ghost start = self@;
        let ghost meant = binary_rest(start, level, first@, (budget - 1) as nat);
        let mut left = first;
        let mut remaining = budget - 1;
        loop
            invariant
                level < 9,
                remaining < budget,
                meant == binary_rest(self@, level, left@, remaining as nat),
                parse_binary(old(self)@, level, budget as nat) == meant,
            decreases remaining,
        {
            if remaining == 0 {
                return Err(self.fail(ErrorKind::LimitExceeded));
            }
            let op = match binary_operator(level, &self.current) {
                Some(op) => op,
                None => {
                    return Ok(left);
                },
            };
            match self.next() {
                Ok(_) => {},
                Err(e) => {
                    return Err(e);
                },
            }
            let right = match self.parse_binary(level + 1, remaining - 1) {
                Ok(right) => right,
                Err(e) => {
                    return Err(e);
                },
            };
            left = Expr::BinaryOp { op, left: Box::new(left), right: Box::new(right) };
            remaining -= 1;
        }
    }

    /// Parses a unary expression.
    fn parse_unary(&mut self, budget: u64) -> (res: Result<Expr, Error>)
        ensures
            parsed_expr(res, final(self)@, parse_unary(old(self)@, budget as nat)),
        decreases budget,
    {
        if budget == 0 {
            return Err(self.fail(ErrorKind::LimitExceeded));
        }
        if prefix_token(&self.current) {
            let operator = self.current.clone();
            self.next()?;
            let operand = self.parse_unary(budget - 1)?;
            match apply_prefix(&operator, operand) {
                Some(e) => self.parse_postfix(e, budget - 1),
                None => Err(self.fail(ErrorKind::UnexpectedToken)),
            }
        } else {
            let e = self.parse_primary(budget - 1)?;
            self.parse_postfix(e, budget - 1)
        }
    }

    /// Parses the `++` and `--` that follow an expression.
    fn parse_postfix(&mut self, operand: Expr, budget: u64) -> (res: Result<Expr, Error>)
        ensures
            parsed_expr(res, final(self)@, parse_postfix(old(self)@, operand@, budget as nat)),
    {
        let ghost meant = parse_postfix(self@, operand@, budget as nat);
        let mut e = operand;
        let mut left = budget;
        loop
            invariant
                meant == parse_postfix(old(self)@, operand@, budget as nat),
                meant == parse_postfix(self@, e@, left as nat),
            decreases left,
        {
            if left == 0 {
                return Err(self.fail(ErrorKind::LimitExceeded));
            }
            if self.at(&Token::PlusPlus) {
                match self.next() {
                    Ok(_) => {},
                    Err(e) => {
                        return Err(e);
                    },
                }
                e = Expr::PostInc(Box::new(e));
            } else if self.at(&Token::MinusMinus) {
                match self.next() {
                    Ok(_) => {},
                    Err(e) => {
                        return Err(e);
                    },
                }
                e = Expr::PostDec(Box::new(e));
            } else {
                return Ok(e);
            }
            left -= 1;
        }
    }

    /// Parses the elements of an array literal up to `close`.
    fn parse_elements(&mut self, close: &Token, budget: u64) -> (res: Result<Vec<Expr>, Error>)
        ensures
            parsed_exprs(
                res,
                final(self)@,
                parse_elements(old(self)@, close@, Seq::empty(), budget as nat),
            ),
        decreases budget, 0nat,
    {
        let ghost meant = parse_elements(self@, close@, Seq::empty(), budget as nat);
        let mut items: Vec<Expr> = Vec::new();
        let mut left = budget;
        assert(exprs_view(items) =~= Seq::<ExprView>::empty());
        loop
            invariant
                left <= budget,
                meant == parse_elements(old(self)@, close@, Seq::empty(), budget as nat),
                meant == parse_elements(self@, close@, exprs_view(items), left as nat),
            decreases left,
        {
            if left == 0 {
                return Err(self.fail(ErrorKind::LimitExceeded));
            }
            if self.at(close) {
                return Ok(items);
            }
            let ghost before = exprs_view(items);
            let e = match self.parse_expression(left - 1) {
                Ok(e) => e,
                Err(e) => {
                    return Err(e);
                },
            };
            items.push(e);
            assert(exprs_view(items) =~= before.push(e@));
            if self.at(&Token::Comma) {
                match self.next() {
                    Ok(_) => {},
                    Err(e) => {
                        return Err(e);
                    },
                }
            } else {
                return Ok(items);
            }
            left -= 1;
        }
    }

    /// Parses the arguments of a call up to the closing parenthesis.
    fn parse_arguments(&mut self, budget: u64) -> (res: Result<Vec<Expr>, Error>)
        ensures
            parsed_exprs(
                res,
                final(self)@,
                parse_arguments(old(self)@, Seq::empty(), budget as nat),
            ),
        decreases budget, 0nat,
    {
        let ghost meant = parse_arguments(self@, Seq::empty(), budget as nat);
        let mut items: Vec<Expr> = Vec::new();
        let mut left = budget;
        assert(exprs_view(items) =~= Seq::<ExprView>::empty());
        loop
            invariant
                left <= budget,
                meant == parse_arguments(old(self)@, Seq::empty(), budget as nat),
                meant == parse_arguments(self@, exprs_view(items), left as nat),
            decreases left,
        {
            if left == 0 {
                return Err(self.fail(ErrorKind::LimitExceeded));
            }
            if self.at(&Token::CloseParen) {
                return Ok(items);
            }
            let ghost before = exprs_view(items);
            let e = match self.parse_expression(left - 1) {
                Ok(e) => e,
                Err(e) => {
                    return Err(e);
                },
            };
            items.push(e);
            assert(exprs_view(items) =~= before.push(e@));
            if self.at(&Token::Comma) {
                match self.next() {
                    Ok(_) => {},
                    Err(e) => {
                        return Err(e);
                    },
                }
            }
            left -= 1;
        }
    }

    /// Parses an array literal whose opening token has been read.
    fn parse_array(&mut self, close: &Token, kind: ErrorKind, budget: u64) -> (res: Result<
        Expr,
        Error,
    >)
        ensures
            parsed_expr(res, final(self)@, parse_array(old(self)@, close@, kind, budget as nat)),
        decreases budget, 1nat,
    {
        if budget == 0 {
            return Err(self.fail(ErrorKind::LimitExceeded));
        }
        let items = self.parse_elements(close, budget - 1)?;
        self.expect(close, kind)?;
        Ok(Expr::ArrayLiteral(items))
    }

    /// Parses what follows an identifier that starts a primary expression.
    fn parse_named(&mut self, name: String, budget: u64) -> (res: Result<Expr, Error>)
        ensures
            parsed_expr(res, final(self)@, parse_named(old(self)@, name@, budget as nat)),
        decreases budget, 1nat,
    {
        if budget == 0 {
            return Err(self.fail(ErrorKind::LimitExceeded));
        }
        if self.at(&Token::OpenParen) {
            self.next()?;
            let args = self.parse_arguments(budget - 1)?;
            self.expect(&Token::CloseParen, ErrorKind::ExpectedCloseParen)?;
            Ok(Expr::FunctionCall { name, args })
        } else if self.at(&Token::OpenBracket) {
            self.next()?;
            let index = self.parse_expression(budget - 1)?;
            self.expect(&Token::CloseBracket, ErrorKind::ExpectedCloseBracket)?;
            Ok(Expr::ArrayIndex(Box::new(Expr::Variable(name)), Box::new(index)))
        } else {
            Ok(Expr::Variable(name))
        }
    }

    /// Parses what follows an opening parenthesis that starts a primary
    /// expression.
    fn parse_parenthesized(&mut self, budget: u64) -> (res: Result<Expr, Error>)
        ensures
            parsed_expr(res, final(self)@, parse_parenthesized(old(self)@, budget as nat)),
        decreases budget, 1nat,
    {
        if budget == 0 {
            return Err(self.fail(ErrorKind::LimitExceeded));
        }
        if self.at_type() {
            match self.parse_type(budget - 1)? {
                Some(t) => {
                    self.expect(&Token::CloseParen, ErrorKind::ExpectedCloseParen)?;
                    let e = self.parse_unary(budget - 1)?;
                    Ok(Expr::Cast(t, Box::new(e)))
                },
                None => Err(self.fail(ErrorKind::UnknownType)),
            }
        } else {
            let e = self.parse_expression(budget - 1)?;
            self.expect(&Token::CloseParen, ErrorKind::ExpectedCloseParen)?;
            Ok(e)
        }
    }

    /// Parses `(type)` after `sizeof`.
    fn parse_sizeof(&mut self, budget: u64) -> (res: Result<Expr, Error>)
        ensures
            parsed_expr(res, final(self)@, parse_sizeof(old(self)@, budget as nat)),
    {
        if budget == 0 {
            return Err(self.fail(ErrorKind::LimitExceeded));
        }
        self.expect(&Token::OpenParen, ErrorKind::ExpectedOpenParen)?;
        let t = self.parse_type(budget - 1)?;
        self.expect(&Token::CloseParen, ErrorKind::ExpectedCloseParen)?;
        Ok(
            Expr::SizeOf(
                match t {
                    Some(t) => t,
                    None => Type::Int,
                },
            ),
        )
    }

    /// Parses a primary expression.
    fn parse_primary(&mut self, budget: u64) -> (res: Result<Expr, Error>)
        ensures
            parsed_expr(res, final(self)@, parse_primary(old(self)@, budget as nat)),
        decreases budget, 2nat,
    {
        if budget == 0 {
            return Err(self.fail(ErrorKind::LimitExceeded));
        }
        match literal_of(&self.current) {
            Some(e) => {
                self.next()?;
                return Ok(e);
            },
            None => {},
        }
        if self.at(&Token::Sizeof) {
            self.next()?;
            self.parse_sizeof(budget - 1)
        } else if self.at(&Token::OpenBrace) {
            self.next()?;
            self.parse_array(&Token::CloseBrace, ErrorKind::ExpectedCloseBrace, budget - 1)
        } else if self.at(&Token::OpenBracket) {
            self.next()?;
            self.parse_array(&Token::CloseBracket, ErrorKind::ExpectedCloseBracket, budget - 1)
        } else if self.at(&Token::OpenParen) {
            self.next()?;
            self.parse_parenthesized(budget - 1)
        } else {
            match self.identifier() {
                Some(name) => {
                    self.next()?;
                    self.parse_named(name, budget - 1)
                },
                None => Err(self.fail(ErrorKind::UnexpectedToken)),
            }
        }
    }

    /// Parses `return` from after the keyword.
    fn parse_return(&mut self, budget: u64) -> (res: Result<Stmt, Error>)
        ensures
            parsed_simple(res, final(self)@, parse_return(old(self)@, budget as nat)),
    {
        if budget == 0 {
            return Err(self.fail(ErrorKind::LimitExceeded));
        }
        let value = if self.at(&Token::Semicolon) || self.at(&Token::CloseBrace) {
            Expr::Number(0)
        } else {
            self.parse_expression(budget - 1)?
        };
        if self.at(&Token::Semicolon) {
            self.next()?;
        }
        Ok(Stmt::Return(value))
    }

    /// Parses the declarations of a `let` from after the keyword.
    fn parse_lets(&mut self, budget: u64) -> (res: Result<Vec<Stmt>, Error>)
        ensures
            match res {
                Ok(decls) => parse_lets(old(self)@, Seq::empty(), budget as nat) == Ok::<
                    (Seq<StmtView>, CursorView),
                    ErrorView,
                >((stmts_view(decls), final(self)@)),
                Err(e) => parse_lets(old(self)@, Seq::empty(), budget as nat) == Err::<
                    (Seq<StmtView>, CursorView),
                    ErrorView,
                >(e@),
            },
    {
        let ghost meant = parse_lets(self@, Seq::empty(), budget as nat);
        let mut decls: Vec<Stmt> = Vec::new();
        let mut left = budget;
        assert(stmts_view(decls) =~= Seq::<StmtView>::empty());
        loop
            invariant
                left <= budget,
                meant == parse_lets(old(self)@, Seq::empty(), budget as nat),
                meant == parse_lets(self@, stmts_view(decls), left as nat),
            decreases left,
        {
            if left == 0 {
                return Err(self.fail(ErrorKind::LimitExceeded));
            }
            let name = match self.expect_identifier() {
                Ok(name) => name,
                Err(e) => {
                    return Err(e);
                },
            };
            let t = if self.at(&Token::Colon) {
                match self.next() {
                    Ok(_) => {},
                    Err(e) => {
                        return Err(e);
                    },
                }
                match self.parse_type(left - 1) {
                    Ok(t) => t,
                    Err(e) => {
                        return Err(e);
                    },
                }
            } else {
                None
            };
            match self.expect(&Token::Assign, ErrorKind::ExpectedAssign) {
                Ok(_) => {},
                Err(e) => {
                    return Err(e);
                },
            }
            let value = match self.parse_expression(left - 1) {
                Ok(value) => value,
                Err(e) => {
                    return Err(e);
                },
            };
            let decl = Stmt::Let {
                name,
                value,
                var_type: Some(
                    match t {
                        Some(t) => t,
                        None => Type::Int,
                    },
                ),
            };
            let ghost before = stmts_view(decls);
            decls.push(decl);
            assert(stmts_view(decls) =~= before.push(decl@));
            if self.at(&Token::Comma) {
                match self.next() {
                    Ok(_) => {},
                    Err(e) => {
                        return Err(e);
                    },
                }
            } else {
                return Ok(decls);
            }
            left -= 1;
        }
    }

    /// Parses `print` from after the keyword.
    fn parse_print(&mut self, budget: u64) -> (res: Result<Stmt, Error>)
        ensures
            parsed_simple(res, final(self)@, parse_print(old(self)@, budget as nat)),
    {
        if budget == 0 {
            return Err(self.fail(ErrorKind::LimitExceeded));
        }
        self.expect(&Token::OpenParen, ErrorKind::ExpectedOpenParen)?;
        let e = self.parse_expression(budget - 1)?;
        self.expect(&Token::CloseParen, ErrorKind::ExpectedCloseParen)?;
        self.expect(&Token::Semicolon, ErrorKind::ExpectedSemicolon)?;
        Ok(Stmt::Print(e))
    }

    /// Parses an expression and `;`.
    fn parse_expression_statement(&mut self, budget: u64) -> (res: Result<Stmt, Error>)
        ensures
            parsed_simple(
                res,
                final(self)@,
                parse_expression_statement(old(self)@, budget as nat),
            ),
    {
        if budget == 0 {
            return Err(self.fail(ErrorKind::LimitExceeded));
        }
        let e = self.parse_expression(budget - 1)?;
        self.expect(&Token::Semicolon, ErrorKind::ExpectedSemicolon)?;
        Ok(Stmt::ExprStmt(e))
    }

    /// Parses the condition of an `if` or a `while`.
    fn parse_condition(&mut self, budget: u64) -> (res: Result<Expr, Error>)
        ensures
            parsed_expr(res, final(self)@, parse_condition(old(self)@, budget as nat)),
    {
        if budget == 0 {
            return Err(self.fail(ErrorKind::LimitExceeded));
        }
        self.expect(&Token::OpenParen, ErrorKind::ExpectedOpenParen)?;
        let e = self.parse_expression(budget - 1)?;
        self.expect(&Token::CloseParen, ErrorKind::ExpectedCloseParen)?;
        Ok(e)
    }

    /// Parses the parameters of a function up to the closing parenthesis.
    fn parse_params(&mut self, budget: u64) -> (res: Result<Vec<String>, Error>)
        ensures
            match res {
                Ok(params) => parse_params(old(self)@, Seq::empty(), budget as nat) == Ok::<
                    (Seq<Seq<char>>, CursorView),
                    ErrorView,
                >((names_view(params@), final(self)@)),
                Err(e) => parse_params(old(self)@, Seq::empty(), budget as nat) == Err::<
                    (Seq<Seq<char>>, CursorView),
                    ErrorView,
                >(e@),
            },
    {
        let ghost meant = parse_params(self@, Seq::empty(), budget as nat);
        let mut params: Vec<String> = Vec::new();
        let mut left = budget;
        assert(names_view(params@) =~= Seq::<Seq<char>>::empty());
        loop
            invariant
                left <= budget,
                meant == parse_params(old(self)@, Seq::empty(), budget as nat),
                meant == parse_params(self@, names_view(params@), left as nat),
            decreases left,
        {
            if left == 0 {
                return Err(self.fail(ErrorKind::LimitExceeded));
            }
            if self.at(&Token::CloseParen) {
                return Ok(params);
            }
            let name = match self.expect_identifier() {
                Ok(name) => name,
                Err(e) => {
                    return Err(e);
                },
            };
            let ghost before = names_view(params@);
            params.push(name);
            assert(names_view(params@) =~= before.push(name@));
            if self.at(&Token::Comma) {
                match self.next() {
                    Ok(_) => {},
                    Err(e) => {
                        return Err(e);
                    },
                }
            } else if self.at(&Token::CloseParen) {
                return Ok(params);
            } else {
                return Err(self.fail(ErrorKind::ExpectedSeparator));
            }
            left -= 1;
        }
    }

    /// Whether the current token starts a declaration with a type in front.
    fn at_declaration(&self) -> (out: bool)
        ensures
            out == starts_declaration(self@.current),
    {
        match &self.current {
            Token::Identifier(name) => type_of_name(name).is_some(),
            _ => false,
        }
    }
}

/// Whether a parsed simple statement and the token stream after it are what
/// the grammar says.
pub open spec fn parsed_simple(
    res: Result<Stmt, Error>,
    after: CursorView,
    meant: ParsedSimple,
) -> bool {
    match res {
        Ok(s) => meant == Ok::<(StmtView, CursorView), ErrorView>((s@, after)),
        Err(e) => meant == Err::<(StmtView, CursorView), ErrorView>(e@),
    }
}

/// Whether a parsed statement and the parser after it are what the grammar
/// says.
pub open spec fn parsed_stmt(
    res: Result<Stmt, Error>,
    after: ParserView,
    meant: ParsedStmt,
) -> bool {
    match res {
        Ok(s) => meant == Ok::<(StmtView, ParserView), ErrorView>((s@, after)),
        Err(e) => meant == Err::<(StmtView, ParserView), ErrorView>(e@),
    }
}

/// Whether a parsed list of statements and the parser after it are what the
/// grammar says.
pub open spec fn parsed_stmts(
    res: Result<Vec<Stmt>, Error>,
    after: ParserView,
    meant: ParsedStmts,
) -> bool {
    match res {
        Ok(items) => meant == Ok::<(Seq<StmtView>, ParserView), ErrorView>(
            (stmts_view(items), after),
        ),
        Err(e) => meant == Err::<(Seq<StmtView>, ParserView), ErrorView>(e@),
    }
}

/// What the parser leaves of the evaluator it borrows: everything but the
/// table of constants.
pub open spec fn constants_only(before: Vm, after: Vm) -> bool {
    &&& after.last_result == before.last_result
    &&& after.variables == before.variables
    &&& after.functions == before.functions
    &&& after.should_return == before.should_return
    &&& after.output == before.output
    &&& after.budget == before.budget
}

/// The parser. It borrows the evaluator for as long as it lives, and enters
/// the constants of each `enum` into it while it parses.
pub struct Parser<'a> {
    /// The token stream.
    pub cursor: Cursor,
    /// The evaluator whose table of constants the parser fills.
    pub vm: &'a mut Vm,
    /// The budget of nested calls and list lengths that `parse` grants.
    pub budget: u64,
}

impl<'a> View for Parser<'a> {
    type V = ParserView;

    open spec fn view(&self) -> ParserView {
        ParserView { cursor: self.cursor@, constants: self.vm.constants@ }
    }
}

impl<'a> Parser<'a> {
    /// A parser at the first token of what `lexer` reads, with the largest
    /// budget.
    pub fn new(lexer: Lexer, vm: &'a mut Vm) -> (res: Result<Parser<'a>, Error>)
        ensures
            match res {
                Ok(parser) => {
                    &&& open_cursor(lexer@) == Ok::<CursorView, ErrorView>(parser.cursor@)
                    &&& *parser.vm == *old(vm)
                    &&& *final(parser.vm) == *final(vm)
                    &&& parser.budget == u64::MAX
                },
                Err(e) => {
                    &&& open_cursor(lexer@) == Err::<CursorView, ErrorView>(e@)
                    &&& *final(vm) == *old(vm)
                },
            },
    {
        match Cursor::new(lexer) {
            Ok(cursor) => Ok(Parser { cursor, vm, budget: u64::MAX }),
            Err(e) => Err(e),
        }
    }

    /// What every step of the parser keeps: its budget, the evaluator it
    /// borrows, and all of that evaluator but the constants.
    pub open spec fn kept(&self, before: &Self) -> bool {
        &&& self.budget == before.budget
        &&& constants_only(*before.vm, *self.vm)
    }

    /// Reads the next token.
    pub fn next(&mut self) -> (res: Result<(), Error>)
        ensures
            moved(res, final(self).cursor@, advance(old(self).cursor@)),
            final(self).kept(old(self)),
            final(self).vm.constants == old(self).vm.constants,
            *final(final(self).vm) == *final(old(self).vm),
    {
        self.cursor.next()
    }

    /// Parses the constants of an `enum` up to the closing brace.
    fn parse_enum_items(&mut self, budget: u64) -> (res: Result<(), Error>)
        ensures
            match res {
                Ok(_) => parse_enum_items(old(self)@, 0, budget as nat) == Ok::<
                    ParserView,
                    ErrorView,
                >(final(self)@),
                Err(e) => parse_enum_items(old(self)@, 0, budget as nat) == Err::<
                    ParserView,
                    ErrorView,
                >(e@),
            },
            final(self).kept(old(self)),
            *final(final(self).vm) == *final(old(self).vm),
    {
        let ghost meant = parse_enum_items(self@, 0, budget as nat);
        let mut value: i32 = 0;
        let mut left = budget;
        loop
            invariant
                left <= budget,
                meant == parse_enum_items(old(self)@, 0, budget as nat),
                meant == parse_enum_items(self@, value, left as nat),
                self.kept(old(self)),
                *final(self.vm) == *final(old(self).vm),
            decreases left,
        {
            if left == 0 {
                return Err(self.cursor.fail(ErrorKind::LimitExceeded));
            }
            if self.cursor.at(&Token::CloseBrace) {
                return Ok(());
            }
            let name = match self.cursor.expect_identifier() {
                Ok(name) => name,
                Err(e) => {
                    return Err(e);
                },
            };
            if self.cursor.at(&Token::Assign) {
                match self.cursor.next() {
                    Ok(_) => {},
                    Err(e) => {
                        return Err(e);
                    },
                }
                value = match &self.cursor.current {
                    Token::Num(n) => *n,
                    _ => {
                        return Err(self.cursor.fail(ErrorKind::ExpectedNumber));
                    },
                };
                match self.cursor.next() {
                    Ok(_) => {},
                    Err(e) => {
                        return Err(e);
                    },
                }
            }
            self.vm.constants.insert(name, value);
            value = value.wrapping_add(1);
            if self.cursor.at(&Token::Comma) {
                match self.cursor.next() {
                    Ok(_) => {},
                    Err(e) => {
                        return Err(e);
                    },
                }
            } else if self.cursor.at(&Token::CloseBrace) {
                return Ok(());
            } else {
                return Err(self.cursor.fail(ErrorKind::ExpectedSeparator));
            }
            left -= 1;
        }
    }

    /// Parses an `enum` from after the keyword.
    fn parse_enum(&mut self, budget: u64) -> (res: Result<Stmt, Error>)
        ensures
            parsed_stmt(res, final(self)@, parse_enum(old(self)@, budget as nat)),
            final(self).kept(old(self)),
            *final(final(self).vm) == *final(old(self).vm),
    {
        if budget == 0 {
            return Err(self.cursor.fail(ErrorKind::LimitExceeded));
        }
        self.cursor.expect(&Token::OpenBrace, ErrorKind::ExpectedOpenBrace)?;
        self.parse_enum_items(budget - 1)?;
        self.cursor.expect(&Token::CloseBrace, ErrorKind::ExpectedCloseBrace)?;
        self.cursor.expect(&Token::Semicolon, ErrorKind::ExpectedSemicolon)?;
        let empty: Vec<Stmt> = Vec::new();
        assert(stmts_view(empty) =~= Seq::<StmtView>::empty());
        Ok(Stmt::Block(empty))
    }

    /// Parses a statement.
    pub fn statement(&mut self, budget: u64) -> (res: Result<Stmt, Error>)
        ensures
            parsed_stmt(res, final(self)@, parse_statement(old(self)@, budget as nat)),
            final(self).kept(old(self)),
            *final(final(self).vm) == *final(old(self).vm),
        decreases budget,
    {
        if budget == 0 {
            return Err(self.cursor.fail(ErrorKind::LimitExceeded));
        }
        if self.cursor.at_declaration() {
            self.typed(budget - 1)
        } else if self.cursor.at(&Token::Return) {
            self.cursor.next()?;
            self.cursor.parse_return(budget - 1)
        } else if self.cursor.at(&Token::Let) {
            self.cursor.next()?;
            let mut decls = self.cursor.parse_lets(budget - 1)?;
            self.cursor.expect(&Token::Semicolon, ErrorKind::ExpectedSemicolon)?;
            if decls.len() == 1 {
                match decls.pop() {
                    Some(decl) => Ok(decl),
                    None => Ok(Stmt::Block(decls)),
                }
            } else {
                Ok(Stmt::Block(decls))
            }
        } else if self.cursor.at(&Token::Print) {
            self.cursor.next()?;
            self.cursor.parse_print(budget - 1)
        } else if self.cursor.at(&Token::If) {
            self.cursor.next()?;
            let condition = self.cursor.parse_condition(budget - 1)?;
            let then_branch = self.statement(budget - 1)?;
            if self.cursor.at(&Token::Else) {
                self.cursor.next()?;
                let else_branch = self.statement(budget - 1)?;
                Ok(
                    Stmt::If {
                        condition,
                        then_branch: Box::new(then_branch),
                        else_branch: Some(Box::new(else_branch)),
                    },
                )
            } else {
                Ok(Stmt::If { condition, then_branch: Box::new(then_branch), else_branch: None })
            }
        } else if self.cursor.at(&Token::While) {
            self.cursor.next()?;
            let condition = self.cursor.parse_condition(budget - 1)?;
            let body = self.statement(budget - 1)?;
            Ok(Stmt::While { condition, body: Box::new(body) })
        } else if self.cursor.at(&Token::OpenBrace) {
            self.block(budget - 1)
        } else if self.cursor.at(&Token::Fn) {
            self.cursor.next()?;
            let name = self.cursor.expect_identifier()?;
            self.function(name, None, budget - 1)
        } else if self.cursor.at(&Token::Enum) {
            self.cursor.next()?;
            self.parse_enum(budget - 1)
        } else {
            self.cursor.parse_expression_statement(budget - 1)
        }
    }

    /// Parses a declaration with its type in front.
    fn typed(&mut self, budget: u64) -> (res: Result<Stmt, Error>)
        ensures
            parsed_stmt(res, final(self)@, parse_typed(old(self)@, budget as nat)),
            final(self).kept(old(self)),
            *final(final(self).vm) == *final(old(self).vm),
        decreases budget,
    {
        if budget == 0 {
            return Err(self.cursor.fail(ErrorKind::LimitExceeded));
        }
        let t = match self.cursor.parse_type(budget - 1)? {
            Some(t) => t,
            None => {
                return Err(self.cursor.fail(ErrorKind::UnknownType));
            },
        };
        let name = self.cursor.expect_identifier()?;
        if self.cursor.at(&Token::OpenParen) {
            self.function(name, Some(t), budget - 1)
        } else {
            self.cursor.expect(&Token::Assign, ErrorKind::ExpectedAssign)?;
            let value = self.cursor.parse_expression(budget - 1)?;
            self.cursor.expect(&Token::Semicolon, ErrorKind::ExpectedSemicolon)?;
            Ok(Stmt::Let { name, value, var_type: Some(t) })
        }
    }

    /// Parses the parameters and the body of a function.
    fn function(&mut self, name: String, return_type: Option<Type>, budget: u64) -> (res: Result<
        Stmt,
        Error,
    >)
        ensures
            parsed_stmt(
                res,
                final(self)@,
                parse_function(old(self)@, name@, return_type, budget as nat),
            ),
            final(self).kept(old(self)),
            *final(final(self).vm) == *final(old(self).vm),
        decreases budget,
    {
        if budget == 0 {
            return Err(self.cursor.fail(ErrorKind::LimitExceeded));
        }
        self.cursor.expect(&Token::OpenParen, ErrorKind::ExpectedOpenParen)?;
        let params = self.cursor.parse_params(budget - 1)?;
        self.cursor.expect(&Token::CloseParen, ErrorKind::ExpectedCloseParen)?;
        let body = self.block(budget - 1)?;
        Ok(Stmt::Function { name, params, body: Box::new(body), return_type })
    }

    /// Parses a block.
    fn block(&mut self, budget: u64) -> (res: Result<Stmt, Error>)
        ensures
            parsed_stmt(res, final(self)@, parse_block(old(self)@, budget as nat)),
            final(self).kept(old(self)),
            *final(final(self).vm) == *final(old(self).vm),
        decreases budget,
    {
        if budget == 0 {
            return Err(self.cursor.fail(ErrorKind::LimitExceeded));
        }
        self.cursor.expect(&Token::OpenBrace, ErrorKind::ExpectedOpenBrace)?;
        let stmts = self.statements(&Token::CloseBrace, budget - 1)?;
        self.cursor.next()?;
        Ok(Stmt::Block(stmts))
    }

    /// Parses statements up to the token `end`.
    fn statements(&mut self, end: &Token, budget: u64) -> (res: Result<Vec<Stmt>, Error>)
        ensures
            parsed_stmts(
                res,
                final(self)@,
                parse_statements(old(self)@, end@, Seq::empty(), budget as nat),
            ),
            final(self).kept(old(self)),
            *final(final(self).vm) == *final(old(self).vm),
        decreases budget,
    {
        let ghost meant = parse_statements(self@, end@, Seq::empty(), budget as nat);
        let mut items: Vec<Stmt> = Vec::new();
        let mut left = budget;
        assert(stmts_view(items) =~= Seq::<StmtView>::empty());
        loop
            invariant
                left <= budget,
                meant == parse_statements(old(self)@, end@, Seq::empty(), budget as nat),
                meant == parse_statements(self@, end@, stmts_view(items), left as nat),
                self.kept(old(self)),
                *final(self.vm) == *final(old(self).vm),
            decreases left,
        {
            if left == 0 {
                return Err(self.cursor.fail(ErrorKind::LimitExceeded));
            }
            if self.cursor.at(end) {
                return Ok(items);
            }
            let s = match self.statement(left - 1) {
                Ok(s) => s,
                Err(e) => {
                    return Err(e);
                },
            };
            let ghost before = stmts_view(items);
            items.push(s);
            assert(stmts_view(items) =~= before.push(s@));
            left -= 1;
        }
    }

    /// Parses the whole input: statements up to its end.
    pub fn parse(&mut self) -> (res: Result<Vec<Stmt>, Error>)
        ensures
            parsed_stmts(res, final(self)@, parse_program(old(self)@, old(self).budget as nat)),
            final(self).kept(old(self)),
            *final(final(self).vm) == *final(old(self).vm),
    {
        let budget = self.budget;
        self.statements(&Token::Eof, budget)
    }
}

} // verus!
