//! Lexical scoping, proved of every program: evaluation never changes how
//! deep the scope stack is, adds no name to any scope but the innermost,
//! and removes none; a block and a call leave no name behind.

use vstd::prelude::*;
use crate::ast::{BinOp, ExprView, StmtView, Type};
use crate::error::ErrorView;
use crate::laws::lemma_innermost;
use crate::semantics::{
    assign, bind_at, bind_params, binds, declare, enter_call, eval_expr, eval_list, eval_step,
    exec_block, exec_stmt, exec_while, innermost, leave_call, lets_only, store_element, with_scopes,
    ScopeView, ValueView, VmView, Wanted,
};

verus! {

/// Whether two scopes bind the same names.
pub open spec fn same_names(a: ScopeView, b: ScopeView) -> bool {
    a.dom() == b.dom()
}

/// Whether two scope stacks are equally deep and bind the same names level
/// by level.
pub open spec fn same_names_everywhere(before: Seq<ScopeView>, after: Seq<ScopeView>) -> bool {
    &&& after.len() == before.len()
    &&& forall|i: int| 0 <= i < before.len() ==> same_names(before[i], #[trigger] after[i])
}

/// Whether `after` is as deep as `before`, binds the same names in every
/// scope but the innermost, and in the innermost at least the names that
/// `before` binds there.
pub open spec fn grown_innermost(before: Seq<ScopeView>, after: Seq<ScopeView>) -> bool {
    &&& after.len() == before.len()
    &&& forall|i: int| 0 <= i < before.len() - 1 ==> same_names(before[i], #[trigger] after[i])
    &&& before.len() > 0 ==> before.last().dom().subset_of(after.last().dom())
}

/// A stack that binds the same names everywhere has grown nowhere.
pub proof fn lemma_same_is_grown(before: Seq<ScopeView>, after: Seq<ScopeView>)
    requires
        same_names_everywhere(before, after),
    ensures
        grown_innermost(before, after),
{
    if before.len() > 0 {
        assert(same_names(before.last(), after[before.len() - 1]));
    }
}

/// Growing twice is growing.
pub proof fn lemma_grown_twice(a: Seq<ScopeView>, b: Seq<ScopeView>, c: Seq<ScopeView>)
    requires
        grown_innermost(a, b),
        grown_innermost(b, c),
    ensures
        grown_innermost(a, c),
{
    assert forall|i: int| 0 <= i < a.len() - 1 implies same_names(a[i], #[trigger] c[i]) by {
        assert(same_names(a[i], b[i]));
        assert(same_names(b[i], c[i]));
    }
}

/// Rebinding a name where it is bound changes no scope's names.
pub proof fn lemma_rebind(scopes: Seq<ScopeView>, index: int, name: Seq<char>, value: ValueView)
    requires
        0 <= index < scopes.len(),
        scopes[index].contains_key(name),
    ensures
        same_names_everywhere(scopes, bind_at(scopes, index, name, value)),
{
    let after = bind_at(scopes, index, name, value);
    assert(after[index].dom() =~= scopes[index].dom());
}

/// `let` grows the innermost scope only.
pub proof fn lemma_declare(scopes: Seq<ScopeView>, name: Seq<char>, value: ValueView)
    requires
        scopes.len() >= 1,
    ensures
        grown_innermost(scopes, declare(scopes, name, value)),
{
}

/// Assignment grows the innermost scope only.
pub proof fn lemma_assign(scopes: Seq<ScopeView>, name: Seq<char>, value: ValueView)
    requires
        scopes.len() >= 1,
    ensures
        grown_innermost(scopes, assign(scopes, name, value)),
{
    lemma_innermost(scopes, name, Wanted::Any);
    let found = innermost(scopes, name, Wanted::Any);
    if found >= 0 {
        lemma_rebind(scopes, found, name, value);
        lemma_same_is_grown(scopes, assign(scopes, name, value));
    } else {
        lemma_declare(scopes, name, value);
    }
}

/// `++` and `--` change no scope's names.
pub proof fn lemma_step(st: VmView, operand: ExprView, delta: i32, prefix: bool)
    requires
        st.scopes.len() >= 1,
    ensures
        eval_step(st, operand, delta, prefix) matches Ok((_, s1)) ==> grown_innermost(
            st.scopes,
            s1.scopes,
        ),
{
    if let ExprView::Variable(name) = operand {
        lemma_innermost(st.scopes, name, Wanted::Int);
        let found = innermost(st.scopes, name, Wanted::Int);
        if found >= 0 {
            let before = st.scopes[found][name]->Int_0;
            let value = ValueView::Int(before.wrapping_add(delta));
            lemma_rebind(st.scopes, found, name, value);
            lemma_same_is_grown(st.scopes, bind_at(st.scopes, found, name, value));
        }
    }
}

/// Storing an array element changes no scope's names.
pub proof fn lemma_store(st: VmView, name: Seq<char>, index: i32, value: ValueView)
    requires
        st.scopes.len() >= 1,
    ensures
        store_element(st, name, index, value) matches Ok(s1) ==> grown_innermost(
            st.scopes,
            s1.scopes,
        ),
{
    lemma_innermost(st.scopes, name, Wanted::Array);
    let found = innermost(st.scopes, name, Wanted::Array);
    if found >= 0 {
        let items = st.scopes[found][name]->Array_0;
        if 0 <= index < items.len() {
            let stored = ValueView::Array(items.update(index as int, value));
            lemma_rebind(st.scopes, found, name, stored);
            lemma_same_is_grown(st.scopes, bind_at(st.scopes, found, name, stored));
        }
    }
}

/// A call leaves every scope of the caller with the names it had.
pub proof fn lemma_leave_call(caller: VmView, frame: ScopeView, after_body: VmView)
    requires
        caller.scopes.len() >= 1,
        grown_innermost(enter_call(caller, frame).scopes, after_body.scopes),
    ensures
        same_names_everywhere(caller.scopes, leave_call(caller, after_body).scopes),
{
    let entered = enter_call(caller, frame).scopes;
    let left = leave_call(caller, after_body).scopes;
    assert(entered.len() == 2);
    assert(same_names(entered[0], after_body.scopes[0]));
    assert forall|i: int| 0 <= i < caller.scopes.len() implies same_names(
        caller.scopes[i],
        #[trigger] left[i],
    ) by {
        if i > 0 {
            assert(left[i] == caller.scopes[i]);
        }
    }
}

/// Evaluating an expression grows the innermost scope only.
pub proof fn lemma_eval_scopes(st: VmView, e: ExprView, budget: nat)
    requires
        st.scopes.len() >= 1,
    ensures
        eval_expr(st, e, budget) matches Ok((_, s1)) ==> grown_innermost(st.scopes, s1.scopes),
    decreases budget, 0nat, e, 0nat,
{
    match e {
        ExprView::Ternary { condition, then_branch, else_branch } => {
            lemma_eval_scopes(st, *condition, budget);
            if let Ok((c, s1)) = eval_expr(st, *condition, budget) {
                lemma_eval_scopes(s1, *then_branch, budget);
                lemma_eval_scopes(s1, *else_branch, budget);
                if let Ok((_, s2)) = eval_expr(st, e, budget) {
                    lemma_grown_twice(st.scopes, s1.scopes, s2.scopes);
                }
            }
        },
        ExprView::AddressOf(inner) => {
            lemma_eval_scopes(st, *inner, budget);
        },
        ExprView::Deref(inner) => {
            lemma_eval_scopes(st, *inner, budget);
        },
        ExprView::Cast(_, inner) => {
            lemma_eval_scopes(st, *inner, budget);
        },
        ExprView::UnaryOp { op, expr } => {
            lemma_eval_scopes(st, *expr, budget);
        },
        ExprView::ArrayLiteral(items) => {
            lemma_eval_list_scopes(st, items, 0, Seq::empty(), budget);
        },
        ExprView::ArrayIndex(array, index) => {
            lemma_eval_scopes(st, *array, budget);
            if let Ok((_, s1)) = eval_expr(st, *array, budget) {
                lemma_eval_scopes(s1, *index, budget);
                if let Ok((_, s2)) = eval_expr(s1, *index, budget) {
                    lemma_grown_twice(st.scopes, s1.scopes, s2.scopes);
                }
            }
        },
        ExprView::PreInc(operand) => {
            lemma_step(st, *operand, 1, true);
        },
        ExprView::PreDec(operand) => {
            lemma_step(st, *operand, -1i32, true);
        },
        ExprView::PostInc(operand) => {
            lemma_step(st, *operand, 1, false);
        },
        ExprView::PostDec(operand) => {
            lemma_step(st, *operand, -1i32, false);
        },
        ExprView::BinaryOp { op, left, right } => {
            if op == BinOp::Assign {
                match *left {
                    ExprView::Variable(name) => {
                        lemma_eval_scopes(st, *right, budget);
                        if let Ok((v, s1)) = eval_expr(st, *right, budget) {
                            lemma_assign(s1.scopes, name, v);
                            lemma_grown_twice(st.scopes, s1.scopes, assign(s1.scopes, name, v));
                        }
                    },
                    ExprView::ArrayIndex(array, index) => {
                        if let ExprView::Variable(name) = *array {
                            lemma_eval_scopes(st, *index, budget);
                            if let Ok((ValueView::Int(i), s1)) = eval_expr(st, *index, budget) {
                                lemma_eval_scopes(s1, *right, budget);
                                if let Ok((v, s2)) = eval_expr(s1, *right, budget) {
                                    lemma_store(s2, name, i, v);
                                    lemma_grown_twice(st.scopes, s1.scopes, s2.scopes);
                                    if let Ok(s3) = store_element(s2, name, i, v) {
                                        lemma_grown_twice(st.scopes, s2.scopes, s3.scopes);
                                    }
                                }
                            }
                        }
                    },
                    _ => {},
                }
            } else {
                lemma_eval_scopes(st, *left, budget);
                if let Ok((_, s1)) = eval_expr(st, *left, budget) {
                    lemma_eval_scopes(s1, *right, budget);
                    if let Ok((_, s2)) = eval_expr(s1, *right, budget) {
                        lemma_grown_twice(st.scopes, s1.scopes, s2.scopes);
                    }
                }
            }
        },
        ExprView::FunctionCall { name, args } => {
            lemma_call_scopes(st, name, args, budget);
        },
        _ => {},
    }
}

/// A call: its arguments grow the innermost scope only, and from the state
/// after them the call itself leaves every scope with the names it had.
pub proof fn lemma_call_scopes(st: VmView, name: Seq<char>, args: Seq<ExprView>, budget: nat)
    requires
        st.scopes.len() >= 1,
    ensures
        eval_expr(st, ExprView::FunctionCall { name, args }, budget) matches Ok((_, s2)) ==> {
            &&& eval_list(st, args, 0, Seq::empty(), budget) matches Ok((_, s1))
            &&& grown_innermost(st.scopes, s1.scopes)
            &&& same_names_everywhere(s1.scopes, s2.scopes)
            &&& grown_innermost(st.scopes, s2.scopes)
        },
    decreases budget, 0nat, args, args.len() + 1,
{
    let call = ExprView::FunctionCall { name, args };
    if let Ok((_, s2)) = eval_expr(st, call, budget) {
        let function = st.functions[name];
        lemma_eval_list_scopes(st, args, 0, Seq::empty(), budget);
        let (values, s1) = eval_list(st, args, 0, Seq::empty(), budget)->Ok_0;
        let frame = bind_params(function.params, values);
        let entered = enter_call(s1, frame);
        lemma_exec_scopes(entered, function.body, (budget - 1) as nat);
        let after_body = exec_stmt(entered, function.body, (budget - 1) as nat)->Ok_0;
        lemma_leave_call(s1, frame, after_body);
        lemma_same_is_grown(s1.scopes, s2.scopes);
        lemma_grown_twice(st.scopes, s1.scopes, s2.scopes);
    }
}

/// Evaluating a list of expressions grows the innermost scope only.
pub proof fn lemma_eval_list_scopes(
    st: VmView,
    items: Seq<ExprView>,
    from: nat,
    done: Seq<ValueView>,
    budget: nat,
)
    requires
        st.scopes.len() >= 1,
    ensures
        eval_list(st, items, from, done, budget) matches Ok((_, s1)) ==> grown_innermost(
            st.scopes,
            s1.scopes,
        ),
    decreases budget, 0nat, items, items.len() - from,
{
    if from < items.len() {
        lemma_eval_scopes(st, items[from as int], budget);
        if let Ok((v, s1)) = eval_expr(st, items[from as int], budget) {
            lemma_eval_list_scopes(s1, items, from + 1, done.push(v), budget);
            if let Ok((_, s2)) = eval_list(s1, items, from + 1, done.push(v), budget) {
                lemma_grown_twice(st.scopes, s1.scopes, s2.scopes);
            }
        }
    }
}

/// Executing a statement grows the innermost scope only.
pub proof fn lemma_exec_scopes(st: VmView, s: StmtView, budget: nat)
    requires
        st.scopes.len() >= 1,
    ensures
        exec_stmt(st, s, budget) matches Ok(s1) ==> grown_innermost(st.scopes, s1.scopes),
    decreases budget, 1nat, s, 1nat,
{
    if !st.should_return {
        match s {
            StmtView::Return(e) => {
                lemma_eval_scopes(st, e, budget);
            },
            StmtView::Print(e) => {
                lemma_eval_scopes(st, e, budget);
            },
            StmtView::ExprStmt(e) => {
                lemma_eval_scopes(st, e, budget);
            },
            StmtView::Let { name, value, var_type } => {
                lemma_eval_scopes(st, value, budget);
                if let Ok((v, s1)) = eval_expr(st, value, budget) {
                    lemma_declare(s1.scopes, name, v);
                    lemma_grown_twice(st.scopes, s1.scopes, declare(s1.scopes, name, v));
                }
            },
            StmtView::Assign { name, value } => {
                lemma_eval_scopes(st, value, budget);
                if let Ok((v, s1)) = eval_expr(st, value, budget) {
                    lemma_assign(s1.scopes, name, v);
                    lemma_grown_twice(st.scopes, s1.scopes, assign(s1.scopes, name, v));
                }
            },
            StmtView::If { condition, then_branch, else_branch } => {
                lemma_eval_scopes(st, condition, budget);
                if let Ok((c, s1)) = eval_expr(st, condition, budget) {
                    lemma_exec_scopes(s1, *then_branch, budget);
                    if let Some(other) = else_branch {
                        lemma_exec_scopes(s1, *other, budget);
                    }
                    if let Ok(s2) = exec_stmt(st, s, budget) {
                        lemma_grown_twice(st.scopes, s1.scopes, s2.scopes);
                    }
                }
            },
            StmtView::While { condition, body } => {
                lemma_exec_while_scopes(st, condition, *body, budget);
            },
            StmtView::Block(stmts) => {
                lemma_block_scopes(st, stmts, budget);
            },
            StmtView::Function { .. } => {},
        }
    }
}

/// A block that holds anything but `let` declarations leaves every scope
/// with the names it had; a block of `let` declarations grows the innermost
/// scope only.
pub proof fn lemma_block_scopes(st: VmView, stmts: Seq<StmtView>, budget: nat)
    requires
        st.scopes.len() >= 1,
    ensures
        exec_stmt(st, StmtView::Block(stmts), budget) matches Ok(s1) ==> {
            &&& grown_innermost(st.scopes, s1.scopes)
            &&& !lets_only(stmts) ==> same_names_everywhere(st.scopes, s1.scopes)
        },
    decreases budget, 1nat, stmts, stmts.len() + 1,
{
    if st.should_return {
        assert forall|i: int| 0 <= i < st.scopes.len() implies same_names(
            st.scopes[i],
            #[trigger] st.scopes[i],
        ) by {}
    } else if lets_only(stmts) {
        lemma_exec_block_scopes(st, stmts, 0, budget);
    } else {
        let inner = with_scopes(st, st.scopes.push(Map::empty()));
        lemma_exec_block_scopes(inner, stmts, 0, budget);
        if let Ok(s1) = exec_block(inner, stmts, 0, budget) {
            let after = s1.scopes.drop_last();
            assert forall|i: int| 0 <= i < st.scopes.len() implies same_names(
                st.scopes[i],
                #[trigger] after[i],
            ) by {
                assert(inner.scopes[i] == st.scopes[i]);
                assert(same_names(inner.scopes[i], s1.scopes[i]));
            }
            lemma_same_is_grown(st.scopes, after);
        }
    }
}

/// Executing the statements of a block grows the innermost scope only.
pub proof fn lemma_exec_block_scopes(st: VmView, stmts: Seq<StmtView>, from: nat, budget: nat)
    requires
        st.scopes.len() >= 1,
    ensures
        exec_block(st, stmts, from, budget) matches Ok(s1) ==> grown_innermost(
            st.scopes,
            s1.scopes,
        ),
    decreases budget, 1nat, stmts, stmts.len() - from,
{
    if from < stmts.len() && !st.should_return {
        lemma_exec_scopes(st, stmts[from as int], budget);
        if let Ok(s1) = exec_stmt(st, stmts[from as int], budget) {
            lemma_exec_block_scopes(s1, stmts, from + 1, budget);
            if let Ok(s2) = exec_block(s1, stmts, from + 1, budget) {
                lemma_grown_twice(st.scopes, s1.scopes, s2.scopes);
            }
        }
    }
}

/// Running a loop grows the innermost scope only.
pub proof fn lemma_exec_while_scopes(st: VmView, condition: ExprView, body: StmtView, budget: nat)
    requires
        st.scopes.len() >= 1,
    ensures
        exec_while(st, condition, body, budget) matches Ok(s1) ==> grown_innermost(
            st.scopes,
            s1.scopes,
        ),
    decreases budget, 1nat, body, 0nat,
{
    if budget > 0 {
        let b = (budget - 1) as nat;
        lemma_eval_scopes(st, condition, b);
        if let Ok((c, s1)) = eval_expr(st, condition, b) {
            lemma_exec_scopes(s1, body, b);
            if let Ok(s2) = exec_stmt(s1, body, b) {
                lemma_grown_twice(st.scopes, s1.scopes, s2.scopes);
                lemma_exec_while_scopes(s2, condition, body, b);
                if let Ok(s3) = exec_while(s2, condition, body, b) {
                    lemma_grown_twice(st.scopes, s2.scopes, s3.scopes);
                }
            }
        }
    }
}

/// A `let` is local: it binds its name in the innermost scope of the state
/// that its value leaves, and changes no other scope.
pub proof fn lemma_let_is_local(
    st: VmView,
    name: Seq<char>,
    value: ExprView,
    var_type: Option<Type>,
    budget: nat,
)
    requires
        !st.should_return,
        eval_expr(st, value, budget) matches Ok((_, s1)) && s1.scopes.len() >= 1,
    ensures
        ({
            let (v, s1) = eval_expr(st, value, budget)->Ok_0;
            let s2 = with_scopes(s1, declare(s1.scopes, name, v));
            &&& exec_stmt(st, StmtView::Let { name, value, var_type }, budget) == Ok::<
                VmView,
                ErrorView,
            >(s2)
            &&& s2.scopes.len() == s1.scopes.len()
            &&& s2.scopes.last() == s1.scopes.last().insert(name, v)
            &&& forall|i: int| 0 <= i < s1.scopes.len() - 1 ==> s2.scopes[i] == s1.scopes[i]
        }),
{
}

/// The return latch: while the return flag is set, every statement leaves
/// the state as it is.
pub proof fn lemma_latched(st: VmView, s: StmtView, budget: nat)
    requires
        st.should_return,
    ensures
        exec_stmt(st, s, budget) == Ok::<VmView, ErrorView>(st),
{
}

/// A function body starts with the outermost scope and the scope of its
/// parameters in sight, and with nothing else.
pub proof fn lemma_call_sees_globals_and_parameters(st: VmView, frame: ScopeView)
    requires
        st.scopes.len() >= 1,
    ensures
        enter_call(st, frame).scopes == seq![st.scopes[0], frame],
        !enter_call(st, frame).should_return,
        enter_call(st, frame).functions == st.functions,
        enter_call(st, frame).constants == st.constants,
{
}

} // verus!
