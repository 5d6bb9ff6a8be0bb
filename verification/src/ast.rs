//! Abstract syntax of the language: types, operators, expressions and
//! statements, each with the mathematical view that contracts speak of.

use vstd::prelude::*;

verus! {

/// A type annotation. It is descriptive only: nothing but `sizeof` and casts
/// ever looks at it.
#[derive(Debug, PartialEq)]
pub enum Type {
    /// `int`
    Int,
    /// `char` (and `bool`, which is treated as `char`)
    Char,
    /// A pointer to another type (`str` is a pointer to `char`)
    Pointer(Box<Type>),
    /// `void`
    Void,
    /// A fixed-length array of another type
    Array(Box<Type>, usize),
}

impl Clone for Type {
    fn clone(&self) -> (out: Type)
        ensures
            out == *self,
        decreases self,
    {
        match self {
            Type::Int => Type::Int,
            Type::Char => Type::Char,
            Type::Pointer(inner) => Type::Pointer(Box::new((**inner).clone())),
            Type::Void => Type::Void,
            Type::Array(inner, len) => Type::Array(Box::new((**inner).clone()), *len),
        }
    }
}

/// Binary operators.
#[derive(Debug, Clone, Copy, PartialEq, Eq, Structural)]
pub enum BinOp {
    /// `+`
    Add,
    /// `-`
    Sub,
    /// `*`
    Mul,
    /// `/`
    Div,
    /// `==`
    Equal,
    /// `!=`
    NotEqual,
    /// `<`
    LessThan,
    /// `>`
    GreaterThan,
    /// `<=`
    LessEqual,
    /// `>=`
    GreaterEqual,
    /// `&&`
    And,
    /// `||`
    Or,
    /// `=`
    Assign,
    /// `%`
    Mod,
    /// `&`
    BitAnd,
    /// `|`
    BitOr,
    /// `^`
    BitXor,
    /// `<<`
    Shl,
    /// `>>`
    Shr,
}

/// Unary operators.
#[derive(Debug, Clone, Copy, PartialEq, Eq, Structural)]
pub enum UnOp {
    /// Logical negation, `!x`
    Not,
}

/// An expression.
#[derive(Debug)]
#[allow(inconsistent_fields)]
pub enum Expr {
    /// A numeric literal
    Number(i32),
    /// A variable reference
    Variable(String),
    /// `true` or `false`
    Boolean(bool),
    /// A character literal
    Char(char),
    /// An array literal, `[1, 2, 3]`
    ArrayLiteral(Vec<Expr>),
    /// An array element, `arr[0]`
    ArrayIndex(Box<Expr>, Box<Expr>),
    /// A string literal
    StringLiteral(String),
    /// `++x`
    PreInc(Box<Expr>),
    /// `--x`
    PreDec(Box<Expr>),
    /// `x++`
    PostInc(Box<Expr>),
    /// `x--`
    PostDec(Box<Expr>),
    /// `condition ? then : else`
    Ternary { condition: Box<Expr>, then_branch: Box<Expr>, else_branch: Box<Expr> },
    /// `left op right`; assignment is the operator `Assign`
    BinaryOp { op: BinOp, left: Box<Expr>, right: Box<Expr> },
    /// `op expr`
    UnaryOp { op: UnOp, expr: Box<Expr> },
    /// `name(args)`
    FunctionCall { name: String, args: Vec<Expr> },
    /// A qualified enum constant, looked up as `Enum::Variant`
    EnumValue(String, String),
    /// `sizeof(type)`
    SizeOf(Type),
    /// `(type) expr`
    Cast(Type, Box<Expr>),
    /// `&expr`
    AddressOf(Box<Expr>),
    /// `*expr`
    Deref(Box<Expr>),
}

/// The mathematical value of an [`Expr`]: the same tree over sequences.
#[allow(inconsistent_fields)]
pub enum ExprView {
    Number(i32),
    Variable(Seq<char>),
    Boolean(bool),
    Char(char),
    ArrayLiteral(Seq<ExprView>),
    ArrayIndex(Box<ExprView>, Box<ExprView>),
    StringLiteral(Seq<char>),
    PreInc(Box<ExprView>),
    PreDec(Box<ExprView>),
    PostInc(Box<ExprView>),
    PostDec(Box<ExprView>),
    Ternary { condition: Box<ExprView>, then_branch: Box<ExprView>, else_branch: Box<ExprView> },
    BinaryOp { op: BinOp, left: Box<ExprView>, right: Box<ExprView> },
    UnaryOp { op: UnOp, expr: Box<ExprView> },
    FunctionCall { name: Seq<char>, args: Seq<ExprView> },
    EnumValue(Seq<char>, Seq<char>),
    SizeOf(Type),
    Cast(Type, Box<ExprView>),
    AddressOf(Box<ExprView>),
    Deref(Box<ExprView>),
}

/// The views of a vector of expressions, in order.
pub open spec fn exprs_view(items: Vec<Expr>) -> Seq<ExprView>
    decreases items,
{
    Seq::new(
        items@.len(),
        |i: int|
            if 0 <= i < items@.len() {
                expr_view(items@[i])
            } else {
                ExprView::Number(0)
            },
    )
}

/// The mathematical value of an expression.
pub open spec fn expr_view(e: Expr) -> ExprView
    decreases e,
{
    match e {
        Expr::Number(n) => ExprView::Number(n),
        Expr::Variable(name) => ExprView::Variable(name@),
        Expr::Boolean(b) => ExprView::Boolean(b),
        Expr::Char(c) => ExprView::Char(c),
        Expr::ArrayLiteral(items) => ExprView::ArrayLiteral(exprs_view(items)),
        Expr::ArrayIndex(array, index) => ExprView::ArrayIndex(
            Box::new(expr_view(*array)),
            Box::new(expr_view(*index)),
        ),
        Expr::StringLiteral(s) => ExprView::StringLiteral(s@),
        Expr::PreInc(e) => ExprView::PreInc(Box::new(expr_view(*e))),
        Expr::PreDec(e) => ExprView::PreDec(Box::new(expr_view(*e))),
        Expr::PostInc(e) => ExprView::PostInc(Box::new(expr_view(*e))),
        Expr::PostDec(e) => ExprView::PostDec(Box::new(expr_view(*e))),
        Expr::Ternary { condition, then_branch, else_branch } => ExprView::Ternary {
            condition: Box::new(expr_view(*condition)),
            then_branch: Box::new(expr_view(*then_branch)),
            else_branch: Box::new(expr_view(*else_branch)),
        },
        Expr::BinaryOp { op, left, right } => ExprView::BinaryOp {
            op,
            left: Box::new(expr_view(*left)),
            right: Box::new(expr_view(*right)),
        },
        Expr::UnaryOp { op, expr } => ExprView::UnaryOp { op, expr: Box::new(expr_view(*expr)) },
        Expr::FunctionCall { name, args } => ExprView::FunctionCall {
            name: name@,
            args: exprs_view(args),
        },
        Expr::EnumValue(e, v) => ExprView::EnumValue(e@, v@),
        Expr::SizeOf(t) => ExprView::SizeOf(t),
        Expr::Cast(t, e) => ExprView::Cast(t, Box::new(expr_view(*e))),
        Expr::AddressOf(e) => ExprView::AddressOf(Box::new(expr_view(*e))),
        Expr::Deref(e) => ExprView::Deref(Box::new(expr_view(*e))),
    }
}

impl View for Expr {
    type V = ExprView;

    open spec fn view(&self) -> ExprView {
        expr_view(*self)
    }
}

/// Copies a vector of expressions, element by element.
fn clone_exprs(items: &Vec<Expr>) -> (out: Vec<Expr>)
    ensures
        exprs_view(out) == exprs_view(*items),
    decreases items,
{
    let mut out: Vec<Expr> = Vec::new();
    let mut i: usize = 0;
    while i < items.len()
        invariant
            i <= items.len(),
            out.len() == i,
            forall|j: int| 0 <= j < i ==> out@[j]@ == items@[j]@,
        decreases items.len() - i,
    {
        proof {
            assert(decreases_to!(*items => items@));
            assert(decreases_to!(items@ => items@[i as int]));
        }
        out.push(items[i].clone());
        i += 1;
    }
    assert(exprs_view(out) =~= exprs_view(*items));
    out
}

impl Clone for Expr {
    fn clone(&self) -> (out: Expr)
        ensures
            out@ == self@,
        decreases self,
    {
        match self {
            Expr::Number(n) => Expr::Number(*n),
            Expr::Variable(name) => Expr::Variable(name.clone()),
            Expr::Boolean(b) => Expr::Boolean(*b),
            Expr::Char(c) => Expr::Char(*c),
            Expr::ArrayLiteral(items) => Expr::ArrayLiteral(clone_exprs(items)),
            Expr::ArrayIndex(array, index) => Expr::ArrayIndex(
                Box::new((**array).clone()),
                Box::new((**index).clone()),
            ),
            Expr::StringLiteral(s) => Expr::StringLiteral(s.clone()),
            Expr::PreInc(e) => Expr::PreInc(Box::new((**e).clone())),
            Expr::PreDec(e) => Expr::PreDec(Box::new((**e).clone())),
            Expr::PostInc(e) => Expr::PostInc(Box::new((**e).clone())),
            Expr::PostDec(e) => Expr::PostDec(Box::new((**e).clone())),
            Expr::Ternary { condition, then_branch, else_branch } => Expr::Ternary {
                condition: Box::new((**condition).clone()),
                then_branch: Box::new((**then_branch).clone()),
                else_branch: Box::new((**else_branch).clone()),
            },
            Expr::BinaryOp { op, left, right } => Expr::BinaryOp {
                op: *op,
                left: Box::new((**left).clone()),
                right: Box::new((**right).clone()),
            },
            Expr::UnaryOp { op, expr } => Expr::UnaryOp {
                op: *op,
                expr: Box::new((**expr).clone()),
            },
            Expr::FunctionCall { name, args } => Expr::FunctionCall {
                name: name.clone(),
                args: clone_exprs(args),
            },
            Expr::EnumValue(e, v) => Expr::EnumValue(e.clone(), v.clone()),
            Expr::SizeOf(t) => Expr::SizeOf(t.clone()),
            Expr::Cast(t, e) => Expr::Cast(t.clone(), Box::new((**e).clone())),
            Expr::AddressOf(e) => Expr::AddressOf(Box::new((**e).clone())),
            Expr::Deref(e) => Expr::Deref(Box::new((**e).clone())),
        }
    }
}

/// A statement.
#[derive(Debug)]
pub enum Stmt {
    /// `return expr;`
    Return(Expr),
    /// `print(expr);`
    Print(Expr),
    /// `expr;`
    ExprStmt(Expr),
    /// `{ ... }`
    Block(Vec<Stmt>),
    /// `let name = value;`
    Let { name: String, value: Expr, var_type: Option<Type> },
    /// `name = value`, as a statement
    Assign { name: String, value: Expr },
    /// `if (condition) then_branch else else_branch`
    If { condition: Expr, then_branch: Box<Stmt>, else_branch: Option<Box<Stmt>> },
    /// `while (condition) body`
    While { condition: Expr, body: Box<Stmt> },
    /// A function declaration
    Function { name: String, params: Vec<String>, body: Box<Stmt>, return_type: Option<Type> },
}

/// The mathematical value of a [`Stmt`].
pub enum StmtView {
    Return(ExprView),
    Print(ExprView),
    ExprStmt(ExprView),
    Block(Seq<StmtView>),
    Let { name: Seq<char>, value: ExprView, var_type: Option<Type> },
    Assign { name: Seq<char>, value: ExprView },
    If { condition: ExprView, then_branch: Box<StmtView>, else_branch: Option<Box<StmtView>> },
    While { condition: ExprView, body: Box<StmtView> },
    Function {
        name: Seq<char>,
        params: Seq<Seq<char>>,
        body: Box<StmtView>,
        return_type: Option<Type>,
    },
}

/// The views of a vector of statements, in order.
pub open spec fn stmts_view(items: Vec<Stmt>) -> Seq<StmtView>
    decreases items,
{
    Seq::new(
        items@.len(),
        |i: int|
            if 0 <= i < items@.len() {
                stmt_view(items@[i])
            } else {
                StmtView::Block(Seq::empty())
            },
    )
}

/// The views of a vector of names, in order.
pub open spec fn names_view(names: Seq<String>) -> Seq<Seq<char>> {
    Seq::new(names.len(), |i: int| names[i]@)
}

/// The mathematical value of a statement.
pub open spec fn stmt_view(s: Stmt) -> StmtView
    decreases s,
{
    match s {
        Stmt::Return(e) => StmtView::Return(e@),
        Stmt::Print(e) => StmtView::Print(e@),
        Stmt::ExprStmt(e) => StmtView::ExprStmt(e@),
        Stmt::Block(items) => StmtView::Block(stmts_view(items)),
        Stmt::Let { name, value, var_type } => StmtView::Let {
            name: name@,
            value: value@,
            var_type,
        },
        Stmt::Assign { name, value } => StmtView::Assign { name: name@, value: value@ },
        Stmt::If { condition, then_branch, else_branch } => StmtView::If {
            condition: condition@,
            then_branch: Box::new(stmt_view(*then_branch)),
            else_branch: match else_branch {
                Some(b) => Some(Box::new(stmt_view(*b))),
                None => None,
            },
        },
        Stmt::While { condition, body } => StmtView::While {
            condition: condition@,
            body: Box::new(stmt_view(*body)),
        },
        Stmt::Function { name, params, body, return_type } => StmtView::Function {
            name: name@,
            params: names_view(params@),
            body: Box::new(stmt_view(*body)),
            return_type,
        },
    }
}

impl View for Stmt {
    type V = StmtView;

    open spec fn view(&self) -> StmtView {
        stmt_view(*self)
    }
}

/// Copies a vector of statements, element by element.
fn clone_stmts(items: &Vec<Stmt>) -> (out: Vec<Stmt>)
    ensures
        stmts_view(out) == stmts_view(*items),
    decreases items,
{
    let mut out: Vec<Stmt> = Vec::new();
    let mut i: usize = 0;
    while i < items.len()
        invariant
            i <= items.len(),
            out.len() == i,
            forall|j: int| 0 <= j < i ==> out@[j]@ == items@[j]@,
        decreases items.len() - i,
    {
        proof {
            assert(decreases_to!(*items => items@));
            assert(decreases_to!(items@ => items@[i as int]));
        }
        out.push(items[i].clone());
        i += 1;
    }
    assert(stmts_view(out) =~= stmts_view(*items));
    out
}

/// Copies a vector of names.
pub fn clone_names(names: &Vec<String>) -> (out: Vec<String>)
    ensures
        names_view(out@) == names_view(names@),
{
    let mut out: Vec<String> = Vec::new();
    let mut i: usize = 0;
    while i < names.len()
        invariant
            i <= names.len(),
            out.len() == i,
            forall|j: int| 0 <= j < i ==> out@[j]@ == names@[j]@,
        decreases names.len() - i,
    {
        out.push(names[i].clone());
        i += 1;
    }
    assert(names_view(out@) =~= names_view(names@));
    out
}

/// Copies an optional type annotation.
pub fn clone_type_option(t: &Option<Type>) -> (out: Option<Type>)
    ensures
        out == *t,
{
    match t {
        Some(inner) => Some(inner.clone()),
        None => None,
    }
}

impl Clone for Stmt {
    fn clone(&self) -> (out: Stmt)
        ensures
            out@ == self@,
        decreases self,
    {
        match self {
            Stmt::Return(e) => Stmt::Return(e.clone()),
            Stmt::Print(e) => Stmt::Print(e.clone()),
            Stmt::ExprStmt(e) => Stmt::ExprStmt(e.clone()),
            Stmt::Block(items) => Stmt::Block(clone_stmts(items)),
            Stmt::Let { name, value, var_type } => Stmt::Let {
                name: name.clone(),
                value: value.clone(),
                var_type: clone_type_option(var_type),
            },
            Stmt::Assign { name, value } => Stmt::Assign {
                name: name.clone(),
                value: value.clone(),
            },
            Stmt::If { condition, then_branch, else_branch } => Stmt::If {
                condition: condition.clone(),
                then_branch: Box::new((**then_branch).clone()),
                else_branch: match else_branch {
                    Some(b) => Some(Box::new((**b).clone())),
                    None => None,
                },
            },
            Stmt::While { condition, body } => Stmt::While {
                condition: condition.clone(),
                body: Box::new((**body).clone()),
            },
            Stmt::Function { name, params, body, return_type } => Stmt::Function {
                name: name.clone(),
                params: clone_names(params),
                body: Box::new((**body).clone()),
                return_type: clone_type_option(return_type),
            },
        }
    }
}

} // verus!
