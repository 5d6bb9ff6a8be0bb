//! What holds of every program: laws of the semantics, proved from its
//! definitions.

use vstd::prelude::*;
use crate::ast::{BinOp, ExprView, StmtView, Type};
use crate::error::{named_error, plain_error, ErrorKind, ErrorView};
use crate::semantics::{
    address_of, apply_binop, binds, cast_value, declare, dereference, eval_expr, exec_stmt,
    index_value, innermost, int_binop, int_div, quotient, read_variable, size_of, with_scopes,
    ScopeView, ValueView, VmView, Wanted,
};

verus! {

/// Where a search of the scope stack finds a scope, that scope binds the
/// name as wanted and no scope inside it does; where it finds none, no
/// scope binds the name as wanted.
pub proof fn lemma_innermost(scopes: Seq<ScopeView>, name: Seq<char>, wanted: Wanted)
    ensures
        -1 <= innermost(scopes, name, wanted) < scopes.len(),
        innermost(scopes, name, wanted) >= 0 ==> binds(
            scopes[innermost(scopes, name, wanted)],
            name,
            wanted,
        ),
        forall|i: int|
            innermost(scopes, name, wanted) < i < scopes.len() ==> !binds(
                #[trigger] scopes[i],
                name,
                wanted,
            ),
    decreases scopes.len(),
{
    if scopes.len() > 0 && !binds(scopes.last(), name, wanted) {
        lemma_innermost(scopes.drop_last(), name, wanted);
        let found = innermost(scopes.drop_last(), name, wanted);
        assert forall|i: int| found < i < scopes.len() implies !binds(
            #[trigger] scopes[i],
            name,
            wanted,
        ) by {
            if i < scopes.len() - 1 {
                assert(scopes[i] == scopes.drop_last()[i]);
            }
        }
        if found >= 0 {
            assert(scopes[found] == scopes.drop_last()[found]);
        }
    }
}

/// The fake pointer round trip: where an expression evaluates to an integer
/// whose thousandfold fits in 32 bits, dereferencing its address evaluates
/// to the same integer and leaves the same state.
pub proof fn lemma_deref_of_address(st: VmView, e: ExprView, budget: nat)
    requires
        eval_expr(st, e, budget) matches Ok((ValueView::Int(v), _)) && -2147483 <= v <= 2147483,
    ensures
        eval_expr(st, ExprView::Deref(Box::new(ExprView::AddressOf(Box::new(e)))), budget)
            == eval_expr(st, e, budget),
{
    let v = eval_expr(st, e, budget)->Ok_0.0->Int_0;
    let inner = ExprView::AddressOf(Box::new(e));
    lemma_address_round_trip(v);
    assert(eval_expr(st, inner, budget) == Ok::<(ValueView, VmView), ErrorView>(
        (ValueView::Int(v.wrapping_mul(1000)), eval_expr(st, e, budget)->Ok_0.1),
    ));
}

/// The arithmetic of the round trip: an integer whose thousandfold fits in
/// 32 bits is the quotient by 1000 of its wrapping product with 1000.
pub proof fn lemma_address_round_trip(v: i32)
    requires
        -2147483 <= v <= 2147483,
    ensures
        v.wrapping_mul(1000) == v * 1000,
        int_div(v.wrapping_mul(1000), 1000) == v,
        dereference(address_of(ValueView::Int(v))->Ok_0) == Ok::<ValueView, ErrorKind>(
            ValueView::Int(v),
        ),
{
    let p = v * 1000;
    assert(-2147483648 <= p <= 2147483647);
    assert(v.wrapping_mul(1000) == p);
    assert(quotient(p, 1000) == v);
}

/// Division and remainder by zero fail on all integers.
pub proof fn lemma_zero_divisor(a: i32)
    ensures
        int_binop(BinOp::Div, a, 0) == Err::<i32, ErrorKind>(ErrorKind::DivisionByZero),
        int_binop(BinOp::Mod, a, 0) == Err::<i32, ErrorKind>(ErrorKind::ModuloByZero),
        apply_binop(BinOp::Div, ValueView::Int(a), ValueView::Int(0)) == Err::<
            ValueView,
            ErrorKind,
        >(ErrorKind::DivisionByZero),
        apply_binop(BinOp::Mod, ValueView::Int(a), ValueView::Int(0)) == Err::<
            ValueView,
            ErrorKind,
        >(ErrorKind::ModuloByZero),
{
}

/// Division by zero never yields a value: where the right operand of `/` or
/// `%` evaluates to the integer 0, the whole expression fails, whatever the
/// left operand is; and where the left operand is an integer, it fails as a
/// division, or a remainder, by zero.
pub proof fn lemma_division_by_zero_fails(
    st: VmView,
    op: BinOp,
    left: ExprView,
    right: ExprView,
    budget: nat,
)
    requires
        op == BinOp::Div || op == BinOp::Mod,
        eval_expr(st, left, budget) matches Ok((_, s1)) ==> eval_expr(s1, right, budget) matches Ok(
            (ValueView::Int(r), _),
        ) && r == 0,
    ensures
        eval_expr(
            st,
            ExprView::BinaryOp { op, left: Box::new(left), right: Box::new(right) },
            budget,
        ) is Err,
        eval_expr(st, left, budget) matches Ok((ValueView::Int(_), _)) ==> eval_expr(
            st,
            ExprView::BinaryOp { op, left: Box::new(left), right: Box::new(right) },
            budget,
        ) == Err::<(ValueView, VmView), ErrorView>(
            plain_error(
                if op == BinOp::Div {
                    ErrorKind::DivisionByZero
                } else {
                    ErrorKind::ModuloByZero
                },
            ),
        ),
{
}

/// Indexing an array yields the element at an index within the array and
/// fails with a bounds error at every other index.
pub proof fn lemma_index_bounds(items: Seq<ValueView>, i: i32)
    ensures
        0 <= i < items.len() ==> index_value(ValueView::Array(items), ValueView::Int(i)) == Ok::<
            ValueView,
            ErrorKind,
        >(items[i as int]),
        !(0 <= i < items.len()) ==> index_value(ValueView::Array(items), ValueView::Int(i))
            == Err::<ValueView, ErrorKind>(ErrorKind::IndexOutOfBounds),
{
}

/// The sizes of the scalar types, and the failure of `sizeof` on every
/// array of arrays.
pub proof fn lemma_sizes(inner: Type, inner_len: usize, len: usize)
    ensures
        size_of(Type::Int) == Ok::<i32, ErrorKind>(4),
        size_of(Type::Char) == Ok::<i32, ErrorKind>(1),
        size_of(Type::Pointer(Box::new(inner))) == Ok::<i32, ErrorKind>(8),
        size_of(Type::Void) == Ok::<i32, ErrorKind>(0),
        size_of(Type::Array(Box::new(Type::Array(Box::new(inner), inner_len)), len)) == Err::<
            i32,
            ErrorKind,
        >(ErrorKind::NestedArraySizeof),
{
}

/// Implicit declaration: assigning to a name that no scope binds creates it
/// in the innermost scope and touches no other scope, and a read of the
/// name then sees the value assigned.
pub proof fn lemma_implicit_declaration(st: VmView, name: Seq<char>, value: ExprView, budget: nat)
    requires
        !st.should_return,
        eval_expr(st, value, budget) matches Ok((_, s1)) && s1.scopes.len() >= 1 && innermost(
            s1.scopes,
            name,
            Wanted::Any,
        ) == -1,
    ensures
        ({
            let (v, s1) = eval_expr(st, value, budget)->Ok_0;
            let s2 = with_scopes(s1, declare(s1.scopes, name, v));
            let assignment = ExprView::BinaryOp {
                op: BinOp::Assign,
                left: Box::new(ExprView::Variable(name)),
                right: Box::new(value),
            };
            &&& eval_expr(st, assignment, budget) == Ok::<(ValueView, VmView), ErrorView>((v, s2))
            &&& exec_stmt(st, StmtView::ExprStmt(assignment), budget) == Ok::<VmView, ErrorView>(s2)
            &&& exec_stmt(st, StmtView::Assign { name, value }, budget) == Ok::<VmView, ErrorView>(
                s2,
            )
            &&& s2.scopes.len() == s1.scopes.len()
            &&& s2.scopes.last() == s1.scopes.last().insert(name, v)
            &&& forall|i: int| 0 <= i < s1.scopes.len() - 1 ==> s2.scopes[i] == s1.scopes[i]
            &&& read_variable(s2, name) == Ok::<ValueView, ErrorView>(v)
            &&& eval_expr(s2, ExprView::Variable(name), budget) == Ok::<
                (ValueView, VmView),
                ErrorView,
            >((v, s2))
        }),
{
    let (v, s1) = eval_expr(st, value, budget)->Ok_0;
    let s2 = with_scopes(s1, declare(s1.scopes, name, v));
    lemma_innermost(s2.scopes, name, Wanted::Any);
    assert(binds(s2.scopes.last(), name, Wanted::Any));
}

/// A binary operator on two integers fails only as a division or a
/// remainder by zero, or as the assignment, which is no operator on values.
pub proof fn lemma_int_binop_defined(op: BinOp, a: i32, b: i32)
    ensures
        int_binop(op, a, b) is Err <==> op == BinOp::Assign || ((op == BinOp::Div || op
            == BinOp::Mod) && b == 0),
{
}

/// A cast succeeds exactly on an integer to `int`, `char` or a pointer, and
/// on a string to `int`.
pub proof fn lemma_cast_defined(t: Type, v: ValueView)
    ensures
        cast_value(t, v) is Ok <==> (v is Int && (t is Int || t is Char || t is Pointer)) || (v
            is Str
            && t is Int),
        v is Str ==> cast_value(Type::Int, v) == Ok::<ValueView, ErrorKind>(ValueView::Int(0)),
{
}

/// A name can be read exactly if a scope binds it or it is a constant, and
/// a binding hides the constant of the same name.
pub proof fn lemma_read_defined(st: VmView, name: Seq<char>)
    ensures
        read_variable(st, name) is Ok <==> st.constants.contains_key(name) || exists|i: int|
            0 <= i < st.scopes.len() && #[trigger] st.scopes[i].contains_key(name),
        !(read_variable(st, name) is Ok) ==> read_variable(st, name) == Err::<ValueView, ErrorView>(
            named_error(ErrorKind::VariableNotFound, name),
        ),
        innermost(st.scopes, name, Wanted::Any) >= 0 ==> read_variable(st, name) == Ok::<
            ValueView,
            ErrorView,
        >(st.scopes[innermost(st.scopes, name, Wanted::Any)][name]),
{
    lemma_innermost(st.scopes, name, Wanted::Any);
    let found = innermost(st.scopes, name, Wanted::Any);
    if found >= 0 {
        assert(st.scopes[found].contains_key(name));
    } else {
        assert forall|i: int| 0 <= i < st.scopes.len() implies !(#[trigger] st.scopes[i])
            .contains_key(name) by {
            assert(!binds(st.scopes[i], name, Wanted::Any));
        }
    }
}

} // verus!
