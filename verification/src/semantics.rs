//! What a program means: the evaluation of expressions and the execution of
//! statements as mathematical functions on the state of the evaluator.
//!
//! Every function here that runs program code takes a budget. A call of a
//! function of the program and an iteration of a loop each need one unit of
//! it, and what they run gets one unit less; with no unit left they fail with
//! `LimitExceeded`. The budget makes the meaning of every program a total
//! function, also of one that would run for ever.

use vstd::prelude::*;
use crate::ast::{BinOp, ExprView, StmtView, Type};
use crate::error::{named_error, plain_error, ErrorKind, ErrorView};

verus! {

/// A runtime value.
pub enum ValueView {
    Int(i32),
    Str(Seq<char>),
    Array(Seq<ValueView>),
}

/// One level of the scope stack.
pub type ScopeView = Map<Seq<char>, ValueView>;

/// A declared function.
pub struct FunctionView {
    pub name: Seq<char>,
    pub params: Seq<Seq<char>>,
    pub body: StmtView,
    pub return_type: Option<Type>,
}

/// The state of the evaluator.
pub struct VmView {
    /// The value of the last `return`.
    pub last_result: ValueView,
    /// The scope stack, innermost last.
    pub scopes: Seq<ScopeView>,
    /// The declared functions, by name.
    pub functions: Map<Seq<char>, FunctionView>,
    /// The enum constants, by name.
    pub constants: Map<Seq<char>, i32>,
    /// Set by `return`; while it is set, statements do nothing.
    pub should_return: bool,
    /// The lines printed so far.
    pub output: Seq<Seq<char>>,
}

/// The result of evaluating an expression: its value and the state after it.
pub type Evaluated = Result<(ValueView, VmView), ErrorView>;

/// The result of executing a statement: the state after it.
pub type Executed = Result<VmView, ErrorView>;

/// The state before anything ran: one empty scope, no function, no constant,
/// result 0.
pub open spec fn initial_state() -> VmView {
    VmView {
        last_result: ValueView::Int(0),
        scopes: seq![Map::empty()],
        functions: Map::empty(),
        constants: Map::empty(),
        should_return: false,
        output: Seq::empty(),
    }
}

// ---------------------------------------------------------------------------
// Scopes
// ---------------------------------------------------------------------------
/// Which bindings a search of the scope stack accepts.
#[derive(Debug, Clone, Copy, PartialEq, Eq, Structural)]
pub enum Wanted {
    /// Any binding of the name.
    Any,
    /// A binding of the name to an integer.
    Int,
    /// A binding of the name to an array.
    Array,
}

/// Whether `scope` binds `name` to a value of the wanted kind.
pub open spec fn binds(scope: ScopeView, name: Seq<char>, wanted: Wanted) -> bool {
    scope.contains_key(name) && match wanted {
        Wanted::Any => true,
        Wanted::Int => scope[name] is Int,
        Wanted::Array => scope[name] is Array,
    }
}

/// The index of the innermost scope that binds `name` as wanted, or -1.
pub open spec fn innermost(scopes: Seq<ScopeView>, name: Seq<char>, wanted: Wanted) -> int
    decreases scopes.len(),
{
    if scopes.len() == 0 {
        -1
    } else if binds(scopes.last(), name, wanted) {
        scopes.len() - 1
    } else {
        innermost(scopes.drop_last(), name, wanted)
    }
}

/// `scopes` with `name` bound to `value` in scope `index`.
pub open spec fn bind_at(
    scopes: Seq<ScopeView>,
    index: int,
    name: Seq<char>,
    value: ValueView,
) -> Seq<ScopeView> {
    scopes.update(index, scopes[index].insert(name, value))
}

/// `let`: binds `name` in the innermost scope.
pub open spec fn declare(
    scopes: Seq<ScopeView>,
    name: Seq<char>,
    value: ValueView,
) -> Seq<ScopeView> {
    bind_at(scopes, scopes.len() - 1, name, value)
}

/// Assignment: rebinds `name` in the innermost scope that binds it; where none
/// does, binds it in the innermost scope.
pub open spec fn assign(
    scopes: Seq<ScopeView>,
    name: Seq<char>,
    value: ValueView,
) -> Seq<ScopeView> {
    let found = innermost(scopes, name, Wanted::Any);
    if found >= 0 {
        bind_at(scopes, found, name, value)
    } else {
        declare(scopes, name, value)
    }
}

/// The value of a name: that of its innermost binding, else that of the enum
/// constant of that name.
pub open spec fn read_variable(st: VmView, name: Seq<char>) -> Result<ValueView, ErrorView> {
    let found = innermost(st.scopes, name, Wanted::Any);
    if found >= 0 {
        Ok(st.scopes[found][name])
    } else if st.constants.contains_key(name) {
        Ok(ValueView::Int(st.constants[name]))
    } else {
        Err(named_error(ErrorKind::VariableNotFound, name))
    }
}

/// The scope of a call: each parameter bound to its argument, a later
/// parameter of the same name winning.
pub open spec fn bind_params(params: Seq<Seq<char>>, args: Seq<ValueView>) -> ScopeView
    decreases params.len(),
{
    if params.len() == 0 || args.len() == 0 {
        Map::empty()
    } else {
        bind_params(params.drop_last(), args.drop_last()).insert(params.last(), args.last())
    }
}

// ---------------------------------------------------------------------------
// Operators
// ---------------------------------------------------------------------------
/// 1 for true, 0 for false.
pub open spec fn flag(b: bool) -> i32 {
    if b {
        1
    } else {
        0
    }
}

/// Whether a value counts as true: an integer unless it is 0, and every
/// string and array.
pub open spec fn truthy(v: ValueView) -> bool {
    match v {
        ValueView::Int(i) => i != 0,
        _ => true,
    }
}

/// The quotient of `a` by `b` rounded towards zero, for `b != 0`.
pub open spec fn quotient(a: int, b: int) -> int {
    if a == 0 {
        0
    } else if a > 0 && b > 0 {
        a / b
    } else if a < 0 && b < 0 {
        (-a) / (-b)
    } else if a < 0 {
        -((-a) / b)
    } else {
        -(a / (-b))
    }
}

/// The remainder that goes with [`quotient`], for `b != 0`: it has the sign
/// of `a`.
pub open spec fn remainder(a: int, b: int) -> int {
    if a == 0 {
        0
    } else if a > 0 && b > 0 {
        a % b
    } else if a < 0 && b < 0 {
        -((-a) % (-b))
    } else if a < 0 {
        -((-a) % b)
    } else {
        a % (-b)
    }
}

/// The quotient is no larger in magnitude than the dividend, and it is the
/// dividend negated only for the divisor -1.
pub proof fn lemma_quotient_bounds(a: int, b: int)
    requires
        b != 0,
    ensures
        a >= 0 ==> -a <= quotient(a, b) <= a,
        a < 0 ==> a <= quotient(a, b) <= -a,
        b == -1 ==> quotient(a, b) == -a,
        b != -1 && a != 0 ==> quotient(a, b) != -a,
{
    assert(forall|x: int, d: int| x >= 0 && d > 0 ==> 0 <= #[trigger] (x / d) <= x)
        by (nonlinear_arith);
    assert(forall|x: int, d: int| x > 0 && d > 1 ==> #[trigger] (x / d) < x) by (nonlinear_arith);
    assert(forall|x: int| x >= 0 ==> #[trigger] (x / 1) == x);
}

/// The remainder is smaller in magnitude than the divisor.
pub proof fn lemma_remainder_bounds(a: int, b: int)
    requires
        b != 0,
    ensures
        b > 0 ==> -b < remainder(a, b) < b,
        b < 0 ==> b < remainder(a, b) < -b,
{
    assert(forall|x: int, d: int| x >= 0 && d > 0 ==> 0 <= #[trigger] (x % d) < d)
        by (nonlinear_arith);
}

/// 32-bit division: the quotient rounded towards zero, and `i32::MIN` for
/// `i32::MIN / -1`, whose quotient does not fit.
pub open spec fn int_div(a: i32, b: i32) -> i32 {
    if a == i32::MIN && b == -1 {
        i32::MIN
    } else {
        quotient(a as int, b as int) as i32
    }
}

/// 32-bit remainder.
pub open spec fn int_rem(a: i32, b: i32) -> i32 {
    if a == i32::MIN && b == -1 {
        0
    } else {
        remainder(a as int, b as int) as i32
    }
}

/// A binary operator on two integers. Arithmetic wraps around; a shift uses
/// the low five bits of its right operand.
pub open spec fn int_binop(op: BinOp, a: i32, b: i32) -> Result<i32, ErrorKind> {
    match op {
        BinOp::Add => Ok(a.wrapping_add(b)),
        BinOp::Sub => Ok(a.wrapping_sub(b)),
        BinOp::Mul => Ok(a.wrapping_mul(b)),
        BinOp::Div => if b == 0 {
            Err(ErrorKind::DivisionByZero)
        } else {
            Ok(int_div(a, b))
        },
        BinOp::Mod => if b == 0 {
            Err(ErrorKind::ModuloByZero)
        } else {
            Ok(int_rem(a, b))
        },
        BinOp::Equal => Ok(flag(a == b)),
        BinOp::NotEqual => Ok(flag(a != b)),
        BinOp::LessThan => Ok(flag(a < b)),
        BinOp::GreaterThan => Ok(flag(a > b)),
        BinOp::LessEqual => Ok(flag(a <= b)),
        BinOp::GreaterEqual => Ok(flag(a >= b)),
        BinOp::And => Ok(flag(a != 0 && b != 0)),
        BinOp::Or => Ok(flag(a != 0 || b != 0)),
        BinOp::BitAnd => Ok(a & b),
        BinOp::BitOr => Ok(a | b),
        BinOp::BitXor => Ok(a ^ b),
        BinOp::Shl => Ok(a.wrapping_shl(b as u32)),
        BinOp::Shr => Ok(a.wrapping_shr(b as u32)),
        BinOp::Assign => Err(ErrorKind::InvalidAssignmentTarget),
    }
}

/// A binary operator on two strings: `+` joins them, `==` and `!=` compare
/// them, and no other operator applies.
pub open spec fn str_binop(op: BinOp, a: Seq<char>, b: Seq<char>) -> Result<ValueView, ErrorKind> {
    match op {
        BinOp::Add => Ok(ValueView::Str(a + b)),
        BinOp::Equal => Ok(ValueView::Int(flag(a == b))),
        BinOp::NotEqual => Ok(ValueView::Int(flag(a != b))),
        _ => Err(ErrorKind::UnsupportedStringOperation),
    }
}

/// A binary operator other than assignment on two values: both must be
/// integers or both strings.
pub open spec fn apply_binop(op: BinOp, left: ValueView, right: ValueView) -> Result<
    ValueView,
    ErrorKind,
> {
    match (left, right) {
        (ValueView::Int(a), ValueView::Int(b)) => match int_binop(op, a, b) {
            Ok(i) => Ok(ValueView::Int(i)),
            Err(kind) => Err(kind),
        },
        (ValueView::Str(a), ValueView::Str(b)) => str_binop(op, a, b),
        _ => Err(ErrorKind::MismatchedTypes),
    }
}

/// Logical negation: 1 for the integer 0, 0 for every other integer and for
/// every string.
pub open spec fn apply_not(v: ValueView) -> Result<ValueView, ErrorKind> {
    match v {
        ValueView::Int(i) => Ok(ValueView::Int(flag(i == 0))),
        ValueView::Str(_) => Ok(ValueView::Int(0)),
        ValueView::Array(_) => Err(ErrorKind::NotOnArray),
    }
}

/// The fake address of an integer: the integer times 1000, wrapping around.
pub open spec fn address_of(v: ValueView) -> Result<ValueView, ErrorKind> {
    match v {
        ValueView::Int(i) => Ok(ValueView::Int(i.wrapping_mul(1000))),
        _ => Err(ErrorKind::AddressOfNonInt),
    }
}

/// What a fake address points to: the address divided by 1000.
pub open spec fn dereference(v: ValueView) -> Result<ValueView, ErrorKind> {
    match v {
        ValueView::Int(p) => Ok(ValueView::Int(int_div(p, 1000))),
        _ => Err(ErrorKind::InvalidDereference),
    }
}

/// The size in bytes of a type that is no array.
pub open spec fn scalar_size(t: Type) -> Option<i32> {
    match t {
        Type::Int => Some(4),
        Type::Char => Some(1),
        Type::Pointer(_) => Some(8),
        Type::Void => Some(0),
        Type::Array(_, _) => None,
    }
}

/// `sizeof`: the size of a scalar type, or the element size times the length
/// for an array of scalars (as a wrapping 32-bit product).
pub open spec fn size_of(t: Type) -> Result<i32, ErrorKind> {
    match t {
        Type::Array(elem, len) => match scalar_size(*elem) {
            Some(size) => Ok(size.wrapping_mul(len as i32)),
            None => Err(ErrorKind::NestedArraySizeof),
        },
        _ => Ok(scalar_size(t).unwrap()),
    }
}

/// A cast: an integer to `int` or to a pointer is itself, an integer to
/// `char` keeps its low eight bits, a string to `int` is 0, and nothing
/// else can be cast.
pub open spec fn cast_value(t: Type, v: ValueView) -> Result<ValueView, ErrorKind> {
    match (t, v) {
        (Type::Int, ValueView::Int(i)) => Ok(ValueView::Int(i)),
        (Type::Char, ValueView::Int(i)) => Ok(ValueView::Int(i & 0xFF)),
        (Type::Int, ValueView::Str(_)) => Ok(ValueView::Int(0)),
        (Type::Pointer(_), ValueView::Int(i)) => Ok(ValueView::Int(i)),
        _ => Err(ErrorKind::InvalidCast),
    }
}

/// An element of an array: the index must be an integer within the array.
pub open spec fn index_value(array: ValueView, index: ValueView) -> Result<ValueView, ErrorKind> {
    match index {
        ValueView::Int(i) => match array {
            ValueView::Array(items) => if 0 <= i < items.len() {
                Ok(items[i as int])
            } else {
                Err(ErrorKind::IndexOutOfBounds)
            },
            _ => Err(ErrorKind::NotAnArray),
        },
        _ => Err(ErrorKind::IndexNotInteger),
    }
}

/// The name of a qualified enum constant in the table of constants.
pub open spec fn enum_key(enum_name: Seq<char>, variant: Seq<char>) -> Seq<char> {
    enum_name + seq![':', ':'] + variant
}

// ---------------------------------------------------------------------------
// Printing
// ---------------------------------------------------------------------------
/// The character of a decimal digit.
pub open spec fn digit_char(d: int) -> char {
    if d == 0 {
        '0'
    } else if d == 1 {
        '1'
    } else if d == 2 {
        '2'
    } else if d == 3 {
        '3'
    } else if d == 4 {
        '4'
    } else if d == 5 {
        '5'
    } else if d == 6 {
        '6'
    } else if d == 7 {
        '7'
    } else if d == 8 {
        '8'
    } else {
        '9'
    }
}

/// A natural number in decimal, without leading zeros.
pub open spec fn decimal_nat(n: nat) -> Seq<char>
    decreases n,
{
    if n < 10 {
        seq![digit_char(n as int)]
    } else {
        decimal_nat(n / 10).push(digit_char((n % 10) as int))
    }
}

/// An integer in decimal, with `-` before a negative one.
pub open spec fn decimal(i: int) -> Seq<char> {
    if i < 0 {
        seq!['-'] + decimal_nat((-i) as nat)
    } else {
        decimal_nat(i as nat)
    }
}

/// An array element as printed: an integer in decimal, a string in double
/// quotes, an array as `?`.
pub open spec fn render_element(v: ValueView) -> Seq<char> {
    match v {
        ValueView::Int(i) => decimal(i as int),
        ValueView::Str(s) => seq!['"'] + s + seq!['"'],
        ValueView::Array(_) => seq!['?'],
    }
}

/// The first `count` elements as printed, separated by a comma and a space.
pub open spec fn render_elements(items: Seq<ValueView>, count: nat) -> Seq<char>
    decreases count,
{
    if count == 0 {
        Seq::empty()
    } else if count == 1 {
        render_element(items[0])
    } else {
        render_elements(items, (count - 1) as nat) + seq![',', ' '] + render_element(
            items[count - 1],
        )
    }
}

/// A value as `print` writes it: an integer in decimal, a string as it is, an
/// array as its elements in square brackets.
pub open spec fn render(v: ValueView) -> Seq<char> {
    match v {
        ValueView::Int(i) => decimal(i as int),
        ValueView::Str(s) => s,
        ValueView::Array(items) => seq!['['] + render_elements(items, items.len()) + seq![']'],
    }
}

// ---------------------------------------------------------------------------
// Small changes of the state
// ---------------------------------------------------------------------------
/// The state with another scope stack.
pub open spec fn with_scopes(st: VmView, scopes: Seq<ScopeView>) -> VmView {
    VmView { scopes, ..st }
}

/// What `return` does: it sets the result and the flag.
pub open spec fn returned(st: VmView, value: ValueView) -> VmView {
    VmView { last_result: value, should_return: true, ..st }
}

/// What a call starts from: the outermost scope and the scope of the
/// parameters, result 0, flag clear. The caller's other scopes are out of
/// sight.
pub open spec fn enter_call(st: VmView, frame: ScopeView) -> VmView {
    VmView {
        scopes: seq![st.scopes[0], frame],
        last_result: ValueView::Int(0),
        should_return: false,
        ..st
    }
}

/// What a call leaves behind: the caller's scopes above the outermost one,
/// its result and its flag come back; everything else is as the body left it.
pub open spec fn leave_call(caller: VmView, after_body: VmView) -> VmView {
    VmView {
        scopes: seq![after_body.scopes[0]] + caller.scopes.subrange(1, caller.scopes.len() as int),
        last_result: caller.last_result,
        should_return: caller.should_return,
        ..after_body
    }
}

/// Whether every statement of the block is a `let`.
pub open spec fn lets_only(stmts: Seq<StmtView>) -> bool {
    forall|i: int| 0 <= i < stmts.len() ==> #[trigger] stmts[i] is Let
}

/// The state with `delta` added to the integer that `name` is bound to in
/// its innermost integer binding, and the integer before the change.
pub open spec fn step_variable(st: VmView, name: Seq<char>, delta: i32) -> Result<
    (i32, VmView),
    ErrorView,
> {
    let found = innermost(st.scopes, name, Wanted::Int);
    if found >= 0 {
        let before = st.scopes[found][name]->Int_0;
        Ok(
            (
                before,
                with_scopes(
                    st,
                    bind_at(st.scopes, found, name, ValueView::Int(before.wrapping_add(delta))),
                ),
            ),
        )
    } else {
        Err(named_error(ErrorKind::VariableNotFound, name))
    }
}

/// The state with element `index` of the array that `name` is bound to, in
/// its innermost array binding, replaced by `value`.
pub open spec fn store_element(
    st: VmView,
    name: Seq<char>,
    index: i32,
    value: ValueView,
) -> Executed {
    let found = innermost(st.scopes, name, Wanted::Array);
    if found >= 0 {
        let items = st.scopes[found][name]->Array_0;
        if 0 <= index < items.len() {
            Ok(
                with_scopes(
                    st,
                    bind_at(
                        st.scopes,
                        found,
                        name,
                        ValueView::Array(items.update(index as int, value)),
                    ),
                ),
            )
        } else {
            Err(plain_error(ErrorKind::IndexOutOfBounds))
        }
    } else {
        Err(named_error(ErrorKind::ArrayNotFound, name))
    }
}

/// The value of an expression that is a pure function of another value.
pub open spec fn lift(r: Result<ValueView, ErrorKind>, st: VmView) -> Evaluated {
    match r {
        Ok(v) => Ok((v, st)),
        Err(kind) => Err(plain_error(kind)),
    }
}

/// `++x`, `--x`, `x++`, `x--`: the operand must be a variable; the value is
/// the integer after the change for the prefix forms, before it for the
/// postfix forms.
pub open spec fn eval_step(st: VmView, operand: ExprView, delta: i32, prefix: bool) -> Evaluated {
    match operand {
        ExprView::Variable(name) => match step_variable(st, name, delta) {
            Ok((before, s1)) => Ok(
                (
                    ValueView::Int(
                        if prefix {
                            before.wrapping_add(delta)
                        } else {
                            before
                        },
                    ),
                    s1,
                ),
            ),
            Err(e) => Err(e),
        },
        _ => Err(
            plain_error(
                if delta == 1 {
                    ErrorKind::IncrementTarget
                } else {
                    ErrorKind::DecrementTarget
                },
            ),
        ),
    }
}

// ---------------------------------------------------------------------------
// Evaluation
// ---------------------------------------------------------------------------
/// The value of an expression and the state after evaluating it.
pub open spec fn eval_expr(st: VmView, e: ExprView, budget: nat) -> Evaluated
    decreases budget, 0nat, e, 0nat,
{
    match e {
        ExprView::Number(n) => Ok((ValueView::Int(n), st)),
        ExprView::Boolean(b) => Ok((ValueView::Int(flag(b)), st)),
        ExprView::Char(c) => Ok((ValueView::Int(c as i32), st)),
        ExprView::StringLiteral(s) => Ok((ValueView::Str(s), st)),
        ExprView::Variable(name) => match read_variable(st, name) {
            Ok(v) => Ok((v, st)),
            Err(e) => Err(e),
        },
        ExprView::EnumValue(enum_name, variant) => {
            let key = enum_key(enum_name, variant);
            if st.constants.contains_key(key) {
                Ok((ValueView::Int(st.constants[key]), st))
            } else {
                Err(named_error(ErrorKind::EnumVariantNotFound, key))
            }
        },
        ExprView::SizeOf(t) => match size_of(t) {
            Ok(size) => Ok((ValueView::Int(size), st)),
            Err(kind) => Err(plain_error(kind)),
        },
        ExprView::Ternary { condition, then_branch, else_branch } => match eval_expr(
            st,
            *condition,
            budget,
        ) {
            Ok((c, s1)) => if truthy(c) {
                eval_expr(s1, *then_branch, budget)
            } else {
                eval_expr(s1, *else_branch, budget)
            },
            Err(e) => Err(e),
        },
        ExprView::AddressOf(inner) => match eval_expr(st, *inner, budget) {
            Ok((v, s1)) => lift(address_of(v), s1),
            Err(e) => Err(e),
        },
        ExprView::Deref(inner) => match eval_expr(st, *inner, budget) {
            Ok((v, s1)) => lift(dereference(v), s1),
            Err(e) => Err(e),
        },
        ExprView::Cast(t, inner) => match eval_expr(st, *inner, budget) {
            Ok((v, s1)) => lift(cast_value(t, v), s1),
            Err(e) => Err(e),
        },
        ExprView::UnaryOp { op, expr } => match eval_expr(st, *expr, budget) {
            Ok((v, s1)) => lift(apply_not(v), s1),
            Err(e) => Err(e),
        },
        ExprView::ArrayLiteral(items) => match eval_list(st, items, 0, Seq::empty(), budget) {
            Ok((values, s1)) => Ok((ValueView::Array(values), s1)),
            Err(e) => Err(e),
        },
        ExprView::ArrayIndex(array, index) => match eval_expr(st, *array, budget) {
            Ok((a, s1)) => match eval_expr(s1, *index, budget) {
                Ok((i, s2)) => lift(index_value(a, i), s2),
                Err(e) => Err(e),
            },
            Err(e) => Err(e),
        },
        ExprView::PreInc(operand) => eval_step(st, *operand, 1, true),
        ExprView::PreDec(operand) => eval_step(st, *operand, -1i32, true),
        ExprView::PostInc(operand) => eval_step(st, *operand, 1, false),
        ExprView::PostDec(operand) => eval_step(st, *operand, -1i32, false),
        ExprView::BinaryOp { op, left, right } => if op == BinOp::Assign {
            match *left {
                ExprView::Variable(name) => match eval_expr(st, *right, budget) {
                    Ok((v, s1)) => Ok((v, with_scopes(s1, assign(s1.scopes, name, v)))),
                    Err(e) => Err(e),
                },
                ExprView::ArrayIndex(array, index) => match *array {
                    ExprView::Variable(name) => match eval_expr(st, *index, budget) {
                        Ok((ValueView::Int(i), s1)) => match eval_expr(s1, *right, budget) {
                            Ok((v, s2)) => match store_element(s2, name, i, v) {
                                Ok(s3) => Ok((v, s3)),
                                Err(e) => Err(e),
                            },
                            Err(e) => Err(e),
                        },
                        Ok(_) => Err(plain_error(ErrorKind::IndexNotInteger)),
                        Err(e) => Err(e),
                    },
                    _ => Err(plain_error(ErrorKind::InvalidArrayTarget)),
                },
                _ => Err(plain_error(ErrorKind::InvalidAssignmentTarget)),
            }
        } else {
            match eval_expr(st, *left, budget) {
                Ok((l, s1)) => match eval_expr(s1, *right, budget) {
                    Ok((r, s2)) => lift(apply_binop(op, l, r), s2),
                    Err(e) => Err(e),
                },
                Err(e) => Err(e),
            }
        },
        ExprView::FunctionCall { name, args } => if !st.functions.contains_key(name) {
            Err(named_error(ErrorKind::FunctionNotFound, name))
        } else {
            let function = st.functions[name];
            match eval_list(st, args, 0, Seq::empty(), budget) {
                Ok((values, s1)) => if values.len() != function.params.len() {
                    Err(named_error(ErrorKind::ArityMismatch, name))
                } else if budget == 0 {
                    Err(plain_error(ErrorKind::LimitExceeded))
                } else {
                    match exec_stmt(
                        enter_call(s1, bind_params(function.params, values)),
                        function.body,
                        (budget - 1) as nat,
                    ) {
                        Ok(s2) => Ok((s2.last_result, leave_call(s1, s2))),
                        Err(e) => Err(e),
                    }
                },
                Err(e) => Err(e),
            }
        },
    }
}

/// The values of the expressions from `from` on, evaluated from left to
/// right and appended to `done`, and the state after the last of them.
pub open spec fn eval_list(
    st: VmView,
    items: Seq<ExprView>,
    from: nat,
    done: Seq<ValueView>,
    budget: nat,
) -> Result<(Seq<ValueView>, VmView), ErrorView>
    decreases budget, 0nat, items, items.len() - from,
{
    if from >= items.len() {
        Ok((done, st))
    } else {
        match eval_expr(st, items[from as int], budget) {
            Ok((v, s1)) => eval_list(s1, items, from + 1, done.push(v), budget),
            Err(e) => Err(e),
        }
    }
}

/// The state after executing a statement. While the return flag is set, a
/// statement does nothing.
pub open spec fn exec_stmt(st: VmView, s: StmtView, budget: nat) -> Executed
    decreases budget, 1nat, s, 1nat,
{
    if st.should_return {
        Ok(st)
    } else {
        match s {
            StmtView::Return(e) => match eval_expr(st, e, budget) {
                Ok((v, s1)) => Ok(returned(s1, v)),
                Err(e) => Err(e),
            },
            StmtView::Print(e) => match eval_expr(st, e, budget) {
                Ok((v, s1)) => Ok(VmView { output: s1.output.push(render(v)), ..s1 }),
                Err(e) => Err(e),
            },
            StmtView::ExprStmt(e) => match eval_expr(st, e, budget) {
                Ok((_, s1)) => Ok(s1),
                Err(e) => Err(e),
            },
            StmtView::Let { name, value, var_type } => match eval_expr(st, value, budget) {
                Ok((v, s1)) => Ok(with_scopes(s1, declare(s1.scopes, name, v))),
                Err(e) => Err(e),
            },
            StmtView::Assign { name, value } => match eval_expr(st, value, budget) {
                Ok((v, s1)) => Ok(with_scopes(s1, assign(s1.scopes, name, v))),
                Err(e) => Err(e),
            },
            StmtView::If { condition, then_branch, else_branch } => match eval_expr(
                st,
                condition,
                budget,
            ) {
                Ok((c, s1)) => if truthy(c) {
                    exec_stmt(s1, *then_branch, budget)
                } else {
                    match else_branch {
                        Some(other) => exec_stmt(s1, *other, budget),
                        None => Ok(s1),
                    }
                },
                Err(e) => Err(e),
            },
            StmtView::While { condition, body } => exec_while(st, condition, *body, budget),
            StmtView::Block(stmts) => if lets_only(stmts) {
                exec_block(st, stmts, 0, budget)
            } else {
                match exec_block(with_scopes(st, st.scopes.push(Map::empty())), stmts, 0, budget) {
                    Ok(s1) => Ok(with_scopes(s1, s1.scopes.drop_last())),
                    Err(e) => Err(e),
                }
            },
            StmtView::Function { name, params, body, return_type } => Ok(
                VmView {
                    functions: st.functions.insert(
                        name,
                        FunctionView { name, params, body: *body, return_type },
                    ),
                    ..st
                },
            ),
        }
    }
}

/// The state after the statements of a block from `from` on, in order,
/// stopping after the one that sets the return flag.
pub open spec fn exec_block(st: VmView, stmts: Seq<StmtView>, from: nat, budget: nat) -> Executed
    decreases budget, 1nat, stmts, stmts.len() - from,
{
    if from >= stmts.len() || st.should_return {
        Ok(st)
    } else {
        match exec_stmt(st, stmts[from as int], budget) {
            Ok(s1) => exec_block(s1, stmts, from + 1, budget),
            Err(e) => Err(e),
        }
    }
}

/// The state after a loop: as long as the condition is true and the return
/// flag is clear, the body runs. Each test of the condition needs one unit
/// of the budget.
pub open spec fn exec_while(
    st: VmView,
    condition: ExprView,
    body: StmtView,
    budget: nat,
) -> Executed
    decreases budget, 1nat, body, 0nat,
{
    if budget == 0 {
        Err(plain_error(ErrorKind::LimitExceeded))
    } else {
        match eval_expr(st, condition, (budget - 1) as nat) {
            Ok((c, s1)) => if truthy(c) {
                match exec_stmt(s1, body, (budget - 1) as nat) {
                    Ok(s2) => if s2.should_return {
                        Ok(s2)
                    } else {
                        exec_while(s2, condition, body, (budget - 1) as nat)
                    },
                    Err(e) => Err(e),
                }
            } else {
                Ok(s1)
            },
            Err(e) => Err(e),
        }
    }
}

} // verus!
