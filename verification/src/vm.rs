//! The evaluator: it walks the syntax tree against its own state of scopes,
//! functions and constants, and does what `crate::semantics` says.

use vstd::prelude::*;
use vstd::hash_map::StringHashMap;
use crate::ast::{
    clone_names, clone_type_option, expr_view, exprs_view, names_view, stmts_view, BinOp, Expr,
    Stmt, Type,
};
use crate::error::{Error, ErrorKind, ErrorView};
use crate::semantics::{
    address_of, apply_binop, apply_not, assign, bind_at, bind_params, binds, cast_value, declare,
    dereference, enter_call, enum_key, eval_expr, eval_list, eval_step, exec_block, exec_stmt,
    exec_while, flag, index_value, initial_state, innermost, int_binop, leave_call,
    lemma_quotient_bounds, lemma_remainder_bounds, lets_only, lift, read_variable, render,
    render_elements, returned, size_of, step_variable, store_element, truthy, with_scopes,
    Evaluated, Executed, FunctionView, ScopeView, ValueView, VmView, Wanted,
};
use crate::text::{push_decimal, push_text};

verus! {

/// A runtime value.
#[derive(Debug)]
pub enum Value {
    /// An integer
    Int(i32),
    /// A string
    Str(String),
    /// An array of values
    Array(Vec<Value>),
}

/// The views of a sequence of values, in order.
pub open spec fn values_view(items: Vec<Value>) -> Seq<ValueView>
    decreases items,
{
    Seq::new(
        items@.len(),
        |i: int|
            if 0 <= i < items@.len() {
                value_view(items@[i])
            } else {
                ValueView::Int(0)
            },
    )
}

/// The mathematical value of a runtime value.
pub open spec fn value_view(v: Value) -> ValueView
    decreases v,
{
    match v {
        Value::Int(i) => ValueView::Int(i),
        Value::Str(s) => ValueView::Str(s@),
        Value::Array(items) => ValueView::Array(values_view(items)),
    }
}

impl View for Value {
    type V = ValueView;

    open spec fn view(&self) -> ValueView {
        value_view(*self)
    }
}

/// Copies a vector of values, element by element.
fn clone_values(items: &Vec<Value>) -> (out: Vec<Value>)
    ensures
        values_view(out) == values_view(*items),
    decreases items,
{
    let mut out: Vec<Value> = Vec::new();
    let mut i: usize = 0;
    while i < items.len()
        invariant
            i <= items.len(),
            out.len() == i,
            forall|j: int| 0 <= j < i ==> out@[j]@ == items@[j]@,
        decreases items.len() - i,
    {
        proof {
            assert(decreases_to!(*items => items@));
            assert(decreases_to!(items@ => items@[i as int]));
        }
        out.push(items[i].clone());
        i += 1;
    }
    assert(values_view(out) =~= values_view(*items));
    out
}

impl Clone for Value {
    fn clone(&self) -> (out: Value)
        ensures
            out@ == self@,
        decreases self,
    {
        match self {
            Value::Int(i) => Value::Int(*i),
            Value::Str(s) => Value::Str(s.clone()),
            Value::Array(items) => Value::Array(clone_values(items)),
        }
    }
}

/// A declared function.
#[derive(Debug)]
pub struct Function {
    /// The name of the function.
    pub name: String,
    /// The names of its parameters, in order.
    pub params: Vec<String>,
    /// Its body.
    pub body: Stmt,
    /// Its declared return type. Nothing enforces it.
    pub return_type: Option<Type>,
}

impl View for Function {
    type V = FunctionView;

    open spec fn view(&self) -> FunctionView {
        FunctionView {
            name: self.name@,
            params: names_view(self.params@),
            body: self.body@,
            return_type: self.return_type,
        }
    }
}

impl Clone for Function {
    fn clone(&self) -> (out: Function)
        ensures
            out@ == self@,
    {
        Function {
            name: self.name.clone(),
            params: clone_names(&self.params),
            body: self.body.clone(),
            return_type: clone_type_option(&self.return_type),
        }
    }
}

/// The view of one scope.
pub open spec fn scope_view(scope: Map<Seq<char>, Value>) -> ScopeView {
    Map::new(|name: Seq<char>| scope.contains_key(name), |name: Seq<char>| scope[name]@)
}

/// The view of the scope stack.
pub open spec fn scopes_view(scopes: Seq<StringHashMap<Value>>) -> Seq<ScopeView> {
    Seq::new(scopes.len(), |i: int| scope_view(scopes[i]@))
}

/// The view of the function table.
pub open spec fn functions_view(functions: Map<Seq<char>, Function>) -> Map<
    Seq<char>,
    FunctionView,
> {
    Map::new(|name: Seq<char>| functions.contains_key(name), |name: Seq<char>| functions[name]@)
}

/// The evaluator's state.
pub struct Vm {
    /// The value of the last `return`.
    pub last_result: Value,
    /// The scope stack, innermost last. It is never empty.
    pub variables: Vec<StringHashMap<Value>>,
    /// The declared functions, by name.
    pub functions: StringHashMap<Function>,
    /// The enum constants, by name.
    pub constants: StringHashMap<i32>,
    /// Set by `return`; while it is set, statements do nothing.
    pub should_return: bool,
    /// The lines that `print` wrote, oldest first.
    pub output: Vec<String>,
    /// The budget of nested calls and loop iterations that `execute` grants.
    pub budget: u64,
}

impl View for Vm {
    type V = VmView;

    open spec fn view(&self) -> VmView {
        VmView {
            last_result: self.last_result@,
            scopes: scopes_view(self.variables@),
            functions: functions_view(self.functions@),
            constants: self.constants@,
            should_return: self.should_return,
            output: names_view(self.output@),
        }
    }
}

/// Whether the result of an evaluation and the state after it are what the
/// semantics says.
pub open spec fn evaluated(res: Result<Value, Error>, after: VmView, meant: Evaluated) -> bool {
    match res {
        Ok(v) => meant == Ok::<(ValueView, VmView), ErrorView>((v@, after)),
        Err(e) => meant == Err::<(ValueView, VmView), ErrorView>(e@),
    }
}

/// Whether the result of an execution and the state after it are what the
/// semantics says.
pub open spec fn executed(res: Result<(), Error>, after: VmView, meant: Executed) -> bool {
    match res {
        Ok(_) => meant == Ok::<VmView, ErrorView>(after),
        Err(e) => meant == Err::<VmView, ErrorView>(e@),
    }
}

impl Vm {
    /// Well-formedness: the scope stack has its outermost scope.
    pub open spec fn wf(&self) -> bool {
        self.variables@.len() >= 1
    }

    /// A fresh evaluator: one empty scope, no function, no constant, result
    /// 0, and the largest budget.
    pub fn new() -> (out: Vm)
        ensures
            out.wf(),
            out@ == initial_state(),
            out.budget == u64::MAX,
    {
        let mut variables: Vec<StringHashMap<Value>> = Vec::new();
        variables.push(StringHashMap::new());
        let out = Vm {
            last_result: Value::Int(0),
            variables,
            functions: StringHashMap::new(),
            constants: StringHashMap::new(),
            should_return: false,
            output: Vec::new(),
            budget: u64::MAX,
        };
        assert(out@.scopes[0] =~= Map::<Seq<char>, ValueView>::empty());
        assert(out@.scopes =~= initial_state().scopes);
        assert(out@.functions =~= initial_state().functions);
        assert(out@.output =~= initial_state().output);
        out
    }

    /// Sets the result and the return flag, as `return` does.
    pub fn set_result(&mut self, value: Value)
        ensures
            final(self)@ == returned(old(self)@, value@),
            final(self).variables == old(self).variables,
            final(self).budget == old(self).budget,
    {
        self.last_result = value;
        self.should_return = true;
    }

    /// The result as an integer: the integer itself, and 0 for a string or
    /// an array.
    pub fn get_result(&self) -> (out: i32)
        ensures
            out == match self@.last_result {
                ValueView::Int(i) => i,
                _ => 0,
            },
    {
        match &self.last_result {
            Value::Int(i) => *i,
            Value::Str(_) => 0,
            Value::Array(_) => 0,
        }
    }

    /// The result as a string, if it is one.
    pub fn get_result_str(&self) -> (out: Option<&str>)
        ensures
            match out {
                Some(s) => self@.last_result == ValueView::Str(s@),
                None => !(self@.last_result is Str),
            },
    {
        match &self.last_result {
            Value::Str(s) => Some(s.as_str()),
            _ => None,
        }
    }

    /// The index of the innermost scope that binds `name` as wanted.
    fn find_scope(&self, name: &str, wanted: Wanted) -> (out: Option<usize>)
        ensures
            match out {
                Some(i) => i == innermost(self@.scopes, name@, wanted) && i < self.variables@.len()
                    && binds(self@.scopes[i as int], name@, wanted),
                None => innermost(self@.scopes, name@, wanted) == -1,
            },
    {
        let ghost scopes = self@.scopes;
        let mut i: usize = self.variables.len();
        assert(scopes.take(i as int) =~= scopes);
        while i > 0
            invariant
                i <= self.variables@.len(),
                scopes == self@.scopes,
                innermost(scopes, name@, wanted) == innermost(scopes.take(i as int), name@, wanted),
            decreases i,
        {
            i -= 1;
            let found = match self.variables[i].get(name) {
                Some(v) => match wanted {
                    Wanted::Any => true,
                    Wanted::Int => match v {
                        Value::Int(_) => true,
                        _ => false,
                    },
                    Wanted::Array => match v {
                        Value::Array(_) => true,
                        _ => false,
                    },
                },
                None => false,
            };
            proof {
                let upto = scopes.take(i + 1);
                assert(upto.last() == scopes[i as int]);
                assert(upto.drop_last() =~= scopes.take(i as int));
                assert(found == binds(scopes[i as int], name@, wanted));
            }
            if found {
                return Some(i);
            }
        }
        None
    }

    /// Binds `name` to `value` in scope `index`.
    fn bind(&mut self, index: usize, name: String, value: Value)
        requires
            index < old(self).variables@.len(),
        ensures
            final(self)@ == with_scopes(
                old(self)@,
                bind_at(old(self)@.scopes, index as int, name@, value@),
            ),
            final(self).variables@.len() == old(self).variables@.len(),
            final(self).budget == old(self).budget,
    {
        self.variables[index].insert(name, value);
        proof {
            let before = old(self)@.scopes;
            let meant = bind_at(before, index as int, name@, value@);
            assert(self@.scopes[index as int] =~= meant[index as int]);
            assert(self@.scopes =~= meant);
        }
    }

    /// `let`: binds `name` in the innermost scope.
    fn declare_variable(&mut self, name: String, value: Value)
        requires
            old(self).wf(),
        ensures
            final(self)@ == with_scopes(old(self)@, declare(old(self)@.scopes, name@, value@)),
            final(self).variables@.len() == old(self).variables@.len(),
            final(self).budget == old(self).budget,
    {
        let last = self.variables.len() - 1;
        self.bind(last, name, value);
    }

    /// Assignment: rebinds `name` where it is bound, else binds it in the
    /// innermost scope.
    fn assign_variable(&mut self, name: String, value: Value)
        requires
            old(self).wf(),
        ensures
            final(self)@ == with_scopes(old(self)@, assign(old(self)@.scopes, name@, value@)),
            final(self).variables@.len() == old(self).variables@.len(),
            final(self).budget == old(self).budget,
    {
        match self.find_scope(name.as_str(), Wanted::Any) {
            Some(index) => self.bind(index, name, value),
            None => self.declare_variable(name, value),
        }
    }

    /// The value of a name: that of its innermost binding, else that of the
    /// constant of that name.
    fn read(&self, name: &String) -> (res: Result<Value, Error>)
        ensures
            match res {
                Ok(v) => read_variable(self@, name@) == Ok::<ValueView, ErrorView>(v@),
                Err(e) => read_variable(self@, name@) == Err::<ValueView, ErrorView>(e@),
            },
    {
        match self.find_scope(name.as_str(), Wanted::Any) {
            Some(index) => match self.variables[index].get(name.as_str()) {
                Some(v) => Ok(v.clone()),
                None => Err(Error::named(ErrorKind::VariableNotFound, name)),
            },
            None => match self.constants.get(name.as_str()) {
                Some(i) => Ok(Value::Int(*i)),
                None => Err(Error::named(ErrorKind::VariableNotFound, name)),
            },
        }
    }

    /// Adds `delta` to the integer that `name` is bound to in its innermost
    /// integer binding, and returns the integer before the change.
    fn step(&mut self, name: &String, delta: i32) -> (res: Result<i32, Error>)
        requires
            old(self).wf(),
        ensures
            match res {
                Ok(before) => step_variable(old(self)@, name@, delta) == Ok::<
                    (i32, VmView),
                    ErrorView,
                >((before, final(self)@)),
                Err(e) => step_variable(old(self)@, name@, delta) == Err::<
                    (i32, VmView),
                    ErrorView,
                >(e@),
            },
            final(self).variables@.len() == old(self).variables@.len(),
            final(self).budget == old(self).budget,
    {
        match self.find_scope(name.as_str(), Wanted::Int) {
            Some(index) => {
                let before: i32 = match self.variables[index].get(name.as_str()) {
                    Some(Value::Int(i)) => *i,
                    _ => 0,
                };
                self.bind(index, name.clone(), Value::Int(before.wrapping_add(delta)));
                Ok(before)
            },
            None => Err(Error::named(ErrorKind::VariableNotFound, name)),
        }
    }

    /// Replaces element `index` of the array that `name` is bound to in its
    /// innermost array binding.
    fn store(&mut self, name: &String, index: i32, value: Value) -> (res: Result<(), Error>)
        requires
            old(self).wf(),
        ensures
            executed(res, final(self)@, store_element(old(self)@, name@, index, value@)),
            final(self).variables@.len() == old(self).variables@.len(),
            final(self).budget == old(self).budget,
    {
        match self.find_scope(name.as_str(), Wanted::Array) {
            Some(scope) => {
                let mut items: Vec<Value> = match self.variables[scope].get(name.as_str()) {
                    Some(Value::Array(items)) => clone_values(items),
                    _ => Vec::new(),
                };
                if index < 0 || index as usize >= items.len() {
                    return Err(Error::plain(ErrorKind::IndexOutOfBounds));
                }
                let ghost before = values_view(items);
                items[index as usize] = value;
                assert(values_view(items) =~= before.update(index as int, value@));
                self.bind(scope, name.clone(), Value::Array(items));
                Ok(())
            },
            None => Err(Error::named(ErrorKind::ArrayNotFound, name)),
        }
    }

    /// What every evaluation keeps: the state stays well-formed and the
    /// budget is untouched; on success the scope stack is as deep as before.
    pub open spec fn kept(&self, before: &Vm, ok: bool) -> bool {
        &&& self.wf()
        &&& self.budget == before.budget
        &&& ok ==> self.variables@.len() == before.variables@.len()
    }

    /// Wraps the result of an operator into the result of an evaluation.
    fn lifted(&self, r: Result<Value, ErrorKind>) -> (res: Result<Value, Error>)
        ensures
            forall|meant: Result<ValueView, ErrorKind>|
                (match r {
                    Ok(v) => meant == Ok::<ValueView, ErrorKind>(v@),
                    Err(kind) => meant == Err::<ValueView, ErrorKind>(kind),
                }) ==> evaluated(res, self@, #[trigger] lift(meant, self@)),
    {
        match r {
            Ok(v) => Ok(v),
            Err(kind) => Err(Error::plain(kind)),
        }
    }

    /// Evaluates an expression.
    pub fn eval_expr(&mut self, e: &Expr, budget: u64) -> (res: Result<Value, Error>)
        requires
            old(self).wf(),
        ensures
            final(self).kept(old(self), res is Ok),
            evaluated(res, final(self)@, eval_expr(old(self)@, e@, budget as nat)),
        decreases budget, 0nat, e, 1nat,
    {
        match e {
            Expr::Number(n) => Ok(Value::Int(*n)),
            Expr::Boolean(b) => Ok(Value::Int(flag_of(*b))),
            Expr::Char(c) => Ok(Value::Int(*c as i32)),
            Expr::StringLiteral(s) => Ok(Value::Str(s.clone())),
            Expr::Variable(name) => self.read(name),
            Expr::EnumValue(enum_name, variant) => {
                let mut key = enum_name.clone();
                key.push(':');
                key.push(':');
                push_text(&mut key, variant);
                assert(key@ =~= enum_key(enum_name@, variant@));
                match self.constants.get(key.as_str()) {
                    Some(i) => Ok(Value::Int(*i)),
                    None => Err(Error::named(ErrorKind::EnumVariantNotFound, &key)),
                }
            },
            Expr::SizeOf(t) => match size_of_type(t) {
                Ok(size) => Ok(Value::Int(size)),
                Err(kind) => Err(Error::plain(kind)),
            },
            Expr::Ternary { condition, then_branch, else_branch } => {
                let c = self.eval_expr(condition, budget)?;
                if is_truthy(&c) {
                    self.eval_expr(then_branch, budget)
                } else {
                    self.eval_expr(else_branch, budget)
                }
            },
            Expr::AddressOf(inner) => {
                let v = self.eval_expr(inner, budget)?;
                self.lifted(address_of_value(v))
            },
            Expr::Deref(inner) => {
                let v = self.eval_expr(inner, budget)?;
                self.lifted(dereference_value(v))
            },
            Expr::Cast(t, inner) => {
                let v = self.eval_expr(inner, budget)?;
                self.lifted(cast_to(t, v))
            },
            Expr::UnaryOp { op, expr } => {
                let v = self.eval_expr(expr, budget)?;
                self.lifted(not_value(v))
            },
            Expr::ArrayLiteral(items) => {
                let values = self.eval_list(items, budget)?;
                Ok(Value::Array(values))
            },
            Expr::ArrayIndex(array, index) => {
                let a = self.eval_expr(array, budget)?;
                let i = self.eval_expr(index, budget)?;
                self.lifted(index_into(a, i))
            },
            Expr::PreInc(operand) => self.eval_step(operand, 1, true),
            Expr::PreDec(operand) => self.eval_step(operand, -1, true),
            Expr::PostInc(operand) => self.eval_step(operand, 1, false),
            Expr::PostDec(operand) => self.eval_step(operand, -1, false),
            Expr::BinaryOp { op, left, right } => match op {
                BinOp::Assign => self.handle_assign(e, budget),
                _ => {
                    let l = self.eval_expr(left, budget)?;
                    let r = self.eval_expr(right, budget)?;
                    self.lifted(apply_binop_of(*op, l, r))
                },
            },
            Expr::FunctionCall { name, args } => self.eval_call(e, budget),
        }
    }

    /// `++`, `--` in prefix or postfix position.
    fn eval_step(&mut self, operand: &Expr, delta: i32, prefix: bool) -> (res: Result<Value, Error>)
        requires
            old(self).wf(),
            delta == 1 || delta == -1,
        ensures
            final(self).kept(old(self), res is Ok),
            evaluated(res, final(self)@, eval_step(old(self)@, operand@, delta, prefix)),
    {
        match operand {
            Expr::Variable(name) => {
                let before = self.step(name, delta)?;
                Ok(
                    Value::Int(
                        if prefix {
                            before.wrapping_add(delta)
                        } else {
                            before
                        },
                    ),
                )
            },
            _ => Err(
                Error::plain(
                    if delta == 1 {
                        ErrorKind::IncrementTarget
                    } else {
                        ErrorKind::DecrementTarget
                    },
                ),
            ),
        }
    }

    /// Evaluates the expressions of a list from left to right.
    fn eval_list(&mut self, items: &Vec<Expr>, budget: u64) -> (res: Result<Vec<Value>, Error>)
        requires
            old(self).wf(),
        ensures
            final(self).kept(old(self), res is Ok),
            match res {
                Ok(values) => eval_list(
                    old(self)@,
                    exprs_view(*items),
                    0,
                    Seq::empty(),
                    budget as nat,
                ) == Ok::<(Seq<ValueView>, VmView), ErrorView>((values_view(values), final(self)@)),
                Err(e) => eval_list(old(self)@, exprs_view(*items), 0, Seq::empty(), budget as nat)
                    == Err::<(Seq<ValueView>, VmView), ErrorView>(e@),
            },
        decreases budget, 0nat, items, 0nat,
    {
        let ghost meant = eval_list(self@, exprs_view(*items), 0, Seq::empty(), budget as nat);
        let mut values: Vec<Value> = Vec::new();
        let mut i: usize = 0;
        assert(values_view(values) =~= Seq::<ValueView>::empty());
        while i < items.len()
            invariant
                i <= items.len(),
                self.kept(old(self), true),
                meant == eval_list(
                    old(self)@,
                    exprs_view(*items),
                    0,
                    Seq::empty(),
                    budget as nat,
                ),
                meant == eval_list(
                    self@,
                    exprs_view(*items),
                    i as nat,
                    values_view(values),
                    budget as nat,
                ),
            decreases items.len() - i,
        {
            proof {
                assert(decreases_to!(*items => items@));
                assert(decreases_to!(items@ => items@[i as int]));
            }
            let ghost before = values_view(values);
            match self.eval_expr(&items[i], budget) {
                Ok(v) => {
                    values.push(v);
                    assert(values_view(values) =~= before.push(v@));
                },
                Err(e) => {
                    return Err(e);
                },
            }
            i += 1;
        }
        Ok(values)
    }

    /// Assignment to a variable or to an element of an array that a variable
    /// holds.
    fn handle_assign(&mut self, e: &Expr, budget: u64) -> (res: Result<Value, Error>)
        requires
            old(self).wf(),
            e matches Expr::BinaryOp { op, .. } && op == BinOp::Assign,
        ensures
            final(self).kept(old(self), res is Ok),
            evaluated(res, final(self)@, eval_expr(old(self)@, e@, budget as nat)),
        decreases budget, 0nat, e, 0nat,
    {
        proof {
            reveal_with_fuel(expr_view, 3);
        }
        match e {
            Expr::BinaryOp { op, left, right } => match &**left {
                Expr::Variable(name) => {
                    let v = self.eval_expr(right, budget)?;
                    self.assign_variable(name.clone(), v.clone());
                    Ok(v)
                },
                Expr::ArrayIndex(array, index) => match &**array {
                    Expr::Variable(name) => {
                        let i = match self.eval_expr(index, budget)? {
                            Value::Int(i) => i,
                            _ => {
                                return Err(Error::plain(ErrorKind::IndexNotInteger));
                            },
                        };
                        let v = self.eval_expr(right, budget)?;
                        self.store(name, i, v.clone())?;
                        Ok(v)
                    },
                    _ => Err(Error::plain(ErrorKind::InvalidArrayTarget)),
                },
                _ => Err(Error::plain(ErrorKind::InvalidAssignmentTarget)),
            },
            _ => Err(Error::plain(ErrorKind::InvalidAssignmentTarget)),
        }
    }

    /// A call: the arguments are evaluated in the caller's scopes, the body
    /// runs in the outermost scope and a fresh scope of the parameters.
    fn eval_call(&mut self, e: &Expr, budget: u64) -> (res: Result<Value, Error>)
        requires
            old(self).wf(),
            e is FunctionCall,
        ensures
            final(self).kept(old(self), res is Ok),
            evaluated(res, final(self)@, eval_expr(old(self)@, e@, budget as nat)),
        decreases budget, 0nat, e, 0nat,
    {
        match e {
            Expr::FunctionCall { name, args } => {
                let function = match self.functions.get(name.as_str()) {
                    Some(f) => f.clone(),
                    None => {
                        return Err(Error::named(ErrorKind::FunctionNotFound, name));
                    },
                };
                let values = self.eval_list(args, budget)?;
                if values.len() != function.params.len() {
                    return Err(Error::named(ErrorKind::ArityMismatch, name));
                }
                if budget == 0 {
                    return Err(Error::plain(ErrorKind::LimitExceeded));
                }
                let ghost caller = self@;
                let frame = bind_frame(&function.params, &values);
                let mut saved = self.variables.split_off(1);
                self.variables.push(frame);
                let caller_result = self.last_result.clone();
                let caller_flag = self.should_return;
                self.last_result = Value::Int(0);
                self.should_return = false;
                assert(self@.scopes =~= enter_call(
                    caller,
                    bind_params(function@.params, values_view(values)),
                ).scopes);
                self.exec_stmt(&function.body, budget - 1)?;
                let ghost after_body = self@;
                let result = self.last_result.clone();
                self.variables.truncate(1);
                self.variables.append(&mut saved);
                self.last_result = caller_result;
                self.should_return = caller_flag;
                assert(self@.scopes =~= leave_call(caller, after_body).scopes);
                Ok(result)
            },
            _ => Err(Error::plain(ErrorKind::FunctionNotFound)),
        }
    }

    /// Executes a statement.
    pub fn exec_stmt(&mut self, s: &Stmt, budget: u64) -> (res: Result<(), Error>)
        requires
            old(self).wf(),
        ensures
            final(self).kept(old(self), res is Ok),
            executed(res, final(self)@, exec_stmt(old(self)@, s@, budget as nat)),
        decreases budget, 1nat, s, 1nat,
    {
        if self.should_return {
            return Ok(());
        }
        match s {
            Stmt::Return(e) => {
                let v = self.eval_expr(e, budget)?;
                self.set_result(v);
                Ok(())
            },
            Stmt::Print(e) => {
                let v = self.eval_expr(e, budget)?;
                let ghost before = self@.output;
                self.output.push(render_value(&v));
                assert(self@.output =~= before.push(render(v@)));
                Ok(())
            },
            Stmt::ExprStmt(e) => {
                let _ = self.eval_expr(e, budget)?;
                Ok(())
            },
            Stmt::Let { name, value, var_type } => {
                let v = self.eval_expr(value, budget)?;
                self.declare_variable(name.clone(), v);
                Ok(())
            },
            Stmt::Assign { name, value } => {
                let v = self.eval_expr(value, budget)?;
                self.assign_variable(name.clone(), v);
                Ok(())
            },
            Stmt::If { condition, then_branch, else_branch } => {
                let c = self.eval_expr(condition, budget)?;
                if is_truthy(&c) {
                    self.exec_stmt(then_branch, budget)
                } else {
                    match else_branch {
                        Some(other) => self.exec_stmt(other, budget),
                        None => Ok(()),
                    }
                }
            },
            Stmt::While { condition, body } => self.exec_while(condition, body, budget),
            Stmt::Block(stmts) => {
                if only_lets(stmts) {
                    self.exec_block(stmts, budget)
                } else {
                    let ghost before = self@.scopes;
                    self.variables.push(StringHashMap::new());
                    proof {
                        assert(self@.scopes[before.len() as int] =~= Map::<
                            Seq<char>,
                            ValueView,
                        >::empty());
                        assert(self@.scopes =~= before.push(Map::empty()));
                    }
                    self.exec_block(stmts, budget)?;
                    let ghost inner = self@.scopes;
                    self.variables.pop();
                    assert(self@.scopes =~= inner.drop_last());
                    Ok(())
                }
            },
            Stmt::Function { name, params, body, return_type } => {
                let function = Function {
                    name: name.clone(),
                    params: clone_names(params),
                    body: (**body).clone(),
                    return_type: clone_type_option(return_type),
                };
                let ghost before = self@.functions;
                self.functions.insert(name.clone(), function);
                assert(self@.functions =~= before.insert(name@, function@));
                Ok(())
            },
        }
    }

    /// Executes statements in order, until one sets the return flag.
    pub fn exec_block(&mut self, stmts: &Vec<Stmt>, budget: u64) -> (res: Result<(), Error>)
        requires
            old(self).wf(),
        ensures
            final(self).kept(old(self), res is Ok),
            executed(
                res,
                final(self)@,
                exec_block(old(self)@, stmts_view(*stmts), 0, budget as nat),
            ),
        decreases budget, 1nat, stmts, 0nat,
    {
        let ghost meant = exec_block(self@, stmts_view(*stmts), 0, budget as nat);
        let mut i: usize = 0;
        while i < stmts.len() && !self.should_return
            invariant
                i <= stmts.len(),
                self.kept(old(self), true),
                meant == exec_block(old(self)@, stmts_view(*stmts), 0, budget as nat),
                meant == exec_block(self@, stmts_view(*stmts), i as nat, budget as nat),
            decreases stmts.len() - i,
        {
            proof {
                assert(decreases_to!(*stmts => stmts@));
                assert(decreases_to!(stmts@ => stmts@[i as int]));
            }
            match self.exec_stmt(&stmts[i], budget) {
                Ok(_) => {},
                Err(e) => {
                    return Err(e);
                },
            }
            i += 1;
        }
        Ok(())
    }

    /// Runs a loop.
    fn exec_while(&mut self, condition: &Expr, body: &Stmt, budget: u64) -> (res: Result<(), Error>)
        requires
            old(self).wf(),
        ensures
            final(self).kept(old(self), res is Ok),
            executed(
                res,
                final(self)@,
                exec_while(old(self)@, condition@, body@, budget as nat),
            ),
        decreases budget, 1nat, body, 0nat,
    {
        let ghost meant = exec_while(self@, condition@, body@, budget as nat);
        let mut left: u64 = budget;
        loop
            invariant
                left <= budget,
                self.kept(old(self), true),
                meant == exec_while(old(self)@, condition@, body@, budget as nat),
                meant == exec_while(self@, condition@, body@, left as nat),
            decreases left,
        {
            if left == 0 {
                return Err(Error::plain(ErrorKind::LimitExceeded));
            }
            left -= 1;
            let c = match self.eval_expr(condition, left) {
                Ok(c) => c,
                Err(e) => {
                    return Err(e);
                },
            };
            if !is_truthy(&c) {
                return Ok(());
            }
            match self.exec_stmt(body, left) {
                Ok(_) => {},
                Err(e) => {
                    return Err(e);
                },
            }
            if self.should_return {
                return Ok(());
            }
        }
    }

    /// Executes a statement with the budget of this evaluator.
    pub fn execute(&mut self, stmt: Stmt) -> (res: Result<(), Error>)
        requires
            old(self).wf(),
        ensures
            final(self).kept(old(self), res is Ok),
            executed(res, final(self)@, exec_stmt(old(self)@, stmt@, old(self).budget as nat)),
    {
        let budget = self.budget;
        self.exec_stmt(&stmt, budget)
    }
}

/// Whether a value counts as true.
fn is_truthy(v: &Value) -> (out: bool)
    ensures
        out == truthy(v@),
{
    match v {
        Value::Int(i) => *i != 0,
        _ => true,
    }
}

/// Whether every statement of a block is a `let`.
fn only_lets(stmts: &Vec<Stmt>) -> (out: bool)
    ensures
        out == lets_only(stmts_view(*stmts)),
{
    let mut i: usize = 0;
    while i < stmts.len()
        invariant
            i <= stmts.len(),
            forall|j: int| 0 <= j < i ==> #[trigger] stmts_view(*stmts)[j] is Let,
        decreases stmts.len() - i,
    {
        match &stmts[i] {
            Stmt::Let { .. } => {},
            _ => {
                assert(!(stmts_view(*stmts)[i as int] is Let));
                return false;
            },
        }
        i += 1;
    }
    true
}

/// The scope of a call: each parameter bound to its argument.
fn bind_frame(params: &Vec<String>, values: &Vec<Value>) -> (out: StringHashMap<Value>)
    requires
        params@.len() == values@.len(),
    ensures
        scope_view(out@) == bind_params(names_view(params@), values_view(*values)),
{
    let mut frame: StringHashMap<Value> = StringHashMap::new();
    let mut i: usize = 0;
    assert(scope_view(frame@) =~= bind_params(
        names_view(params@).take(0),
        values_view(*values).take(0),
    ));
    while i < params.len()
        invariant
            i <= params.len(),
            params@.len() == values@.len(),
            scope_view(frame@) == bind_params(
                names_view(params@).take(i as int),
                values_view(*values).take(i as int),
            ),
        decreases params.len() - i,
    {
        let ghost before = scope_view(frame@);
        frame.insert(params[i].clone(), values[i].clone());
        proof {
            let names = names_view(params@).take(i + 1);
            let args = values_view(*values).take(i + 1);
            assert(names.drop_last() =~= names_view(params@).take(i as int));
            assert(args.drop_last() =~= values_view(*values).take(i as int));
            assert(scope_view(frame@) =~= before.insert(names.last(), args.last()));
        }
        i += 1;
    }
    assert(names_view(params@).take(i as int) =~= names_view(params@));
    assert(values_view(*values).take(i as int) =~= values_view(*values));
    frame
}

/// The fake address of an integer.
fn address_of_value(v: Value) -> (res: Result<Value, ErrorKind>)
    ensures
        match res {
            Ok(out) => address_of(v@) == Ok::<ValueView, ErrorKind>(out@),
            Err(kind) => address_of(v@) == Err::<ValueView, ErrorKind>(kind),
        },
{
    match v {
        Value::Int(i) => Ok(Value::Int(i.wrapping_mul(1000))),
        _ => Err(ErrorKind::AddressOfNonInt),
    }
}

/// What a fake address points to.
fn dereference_value(v: Value) -> (res: Result<Value, ErrorKind>)
    ensures
        match res {
            Ok(out) => dereference(v@) == Ok::<ValueView, ErrorKind>(out@),
            Err(kind) => dereference(v@) == Err::<ValueView, ErrorKind>(kind),
        },
{
    match v {
        Value::Int(p) => match int_binop_of(BinOp::Div, p, 1000) {
            Ok(q) => Ok(Value::Int(q)),
            Err(kind) => Err(kind),
        },
        _ => Err(ErrorKind::InvalidDereference),
    }
}

/// Logical negation.
fn not_value(v: Value) -> (res: Result<Value, ErrorKind>)
    ensures
        match res {
            Ok(out) => apply_not(v@) == Ok::<ValueView, ErrorKind>(out@),
            Err(kind) => apply_not(v@) == Err::<ValueView, ErrorKind>(kind),
        },
{
    match v {
        Value::Int(i) => Ok(Value::Int(flag_of(i == 0))),
        Value::Str(_) => Ok(Value::Int(0)),
        Value::Array(_) => Err(ErrorKind::NotOnArray),
    }
}

// ---------------------------------------------------------------------------
// Operators
// ---------------------------------------------------------------------------
/// 1 for true, 0 for false.
fn flag_of(b: bool) -> (out: i32)
    ensures
        out == flag(b),
{
    if b {
        1
    } else {
        0
    }
}

/// A binary operator on two integers.
fn int_binop_of(op: BinOp, a: i32, b: i32) -> (res: Result<i32, ErrorKind>)
    ensures
        res == int_binop(op, a, b),
{
    match op {
        BinOp::Add => Ok(a.wrapping_add(b)),
        BinOp::Sub => Ok(a.wrapping_sub(b)),
        BinOp::Mul => Ok(a.wrapping_mul(b)),
        BinOp::Div => if b == 0 {
            Err(ErrorKind::DivisionByZero)
        } else {
            proof {
                lemma_quotient_bounds(a as int, b as int);
            }
            match a.checked_div(b) {
                Some(q) => Ok(q),
                None => Ok(i32::MIN),
            }
        },
        BinOp::Mod => if b == 0 {
            Err(ErrorKind::ModuloByZero)
        } else {
            proof {
                lemma_remainder_bounds(a as int, b as int);
            }
            match a.checked_rem(b) {
                Some(r) => Ok(r),
                None => Ok(0),
            }
        },
        BinOp::Equal => Ok(flag_of(a == b)),
        BinOp::NotEqual => Ok(flag_of(a != b)),
        BinOp::LessThan => Ok(flag_of(a < b)),
        BinOp::GreaterThan => Ok(flag_of(a > b)),
        BinOp::LessEqual => Ok(flag_of(a <= b)),
        BinOp::GreaterEqual => Ok(flag_of(a >= b)),
        BinOp::And => Ok(flag_of(a != 0 && b != 0)),
        BinOp::Or => Ok(flag_of(a != 0 || b != 0)),
        BinOp::BitAnd => Ok(a & b),
        BinOp::BitOr => Ok(a | b),
        BinOp::BitXor => Ok(a ^ b),
        BinOp::Shl => Ok(a.wrapping_shl(#[verifier::truncate] (b as u32))),
        BinOp::Shr => Ok(a.wrapping_shr(#[verifier::truncate] (b as u32))),
        BinOp::Assign => Err(ErrorKind::InvalidAssignmentTarget),
    }
}

/// A binary operator other than assignment on two values.
fn apply_binop_of(op: BinOp, left: Value, right: Value) -> (res: Result<Value, ErrorKind>)
    ensures
        match res {
            Ok(v) => apply_binop(op, left@, right@) == Ok::<ValueView, ErrorKind>(v@),
            Err(kind) => apply_binop(op, left@, right@) == Err::<ValueView, ErrorKind>(kind),
        },
{
    match (left, right) {
        (Value::Int(a), Value::Int(b)) => match int_binop_of(op, a, b) {
            Ok(i) => Ok(Value::Int(i)),
            Err(kind) => Err(kind),
        },
        (Value::Str(a), Value::Str(b)) => match op {
            BinOp::Add => {
                let mut joined = a;
                push_text(&mut joined, &b);
                Ok(Value::Str(joined))
            },
            BinOp::Equal => Ok(Value::Int(flag_of(a == b))),
            BinOp::NotEqual => Ok(Value::Int(flag_of(a != b))),
            _ => Err(ErrorKind::UnsupportedStringOperation),
        },
        _ => Err(ErrorKind::MismatchedTypes),
    }
}

/// `sizeof`.
fn size_of_type(t: &Type) -> (res: Result<i32, ErrorKind>)
    ensures
        res == size_of(*t),
{
    match t {
        Type::Int => Ok(4),
        Type::Char => Ok(1),
        Type::Pointer(_) => Ok(8),
        Type::Void => Ok(0),
        Type::Array(elem, len) => {
            let size: i32 = match **elem {
                Type::Int => 4,
                Type::Char => 1,
                Type::Pointer(_) => 8,
                Type::Void => 0,
                Type::Array(_, _) => {
                    return Err(ErrorKind::NestedArraySizeof);
                },
            };
            Ok(size.wrapping_mul(#[verifier::truncate] (*len as i32)))
        },
    }
}

/// A cast.
fn cast_to(t: &Type, v: Value) -> (res: Result<Value, ErrorKind>)
    ensures
        match res {
            Ok(out) => cast_value(*t, v@) == Ok::<ValueView, ErrorKind>(out@),
            Err(kind) => cast_value(*t, v@) == Err::<ValueView, ErrorKind>(kind),
        },
{
    match (t, v) {
        (Type::Int, Value::Int(i)) => Ok(Value::Int(i)),
        (Type::Char, Value::Int(i)) => Ok(Value::Int(i & 0xFF)),
        (Type::Int, Value::Str(_)) => Ok(Value::Int(0)),
        (Type::Pointer(_), Value::Int(i)) => Ok(Value::Int(i)),
        _ => Err(ErrorKind::InvalidCast),
    }
}

/// An element of an array.
fn index_into(array: Value, index: Value) -> (res: Result<Value, ErrorKind>)
    ensures
        match res {
            Ok(out) => index_value(array@, index@) == Ok::<ValueView, ErrorKind>(out@),
            Err(kind) => index_value(array@, index@) == Err::<ValueView, ErrorKind>(kind),
        },
{
    match index {
        Value::Int(i) => match array {
            Value::Array(items) => if i < 0 || i as usize >= items.len() {
                assert(array@ == ValueView::Array(values_view(items)));
                assert(index@ == ValueView::Int(i));
                Err(ErrorKind::IndexOutOfBounds)
            } else {
                let out = items[i as usize].clone();
                assert(array@ == ValueView::Array(values_view(items)));
                assert(index@ == ValueView::Int(i));
                assert(values_view(items)[i as int] == out@);
                Ok(out)
            },
            _ => Err(ErrorKind::NotAnArray),
        },
        _ => Err(ErrorKind::IndexNotInteger),
    }
}

/// A value as `print` writes it.
pub fn render_value(v: &Value) -> (out: String)
    ensures
        out@ == render(v@),
{
    let mut out = String::new();
    match v {
        Value::Int(i) => {
            push_decimal(&mut out, *i);
        },
        Value::Str(s) => {
            push_text(&mut out, s);
        },
        Value::Array(items) => {
            out.push('[');
            let mut i: usize = 0;
            while i < items.len()
                invariant
                    i <= items.len(),
                    out@ == seq!['['] + render_elements(values_view(*items), i as nat),
                decreases items.len() - i,
            {
                let ghost before = out@;
                if i > 0 {
                    out.push(',');
                    out.push(' ');
                }
                match &items[i] {
                    Value::Int(n) => {
                        push_decimal(&mut out, *n);
                    },
                    Value::Str(s) => {
                        out.push('"');
                        push_text(&mut out, s);
                        out.push('"');
                    },
                    Value::Array(_) => {
                        out.push('?');
                    },
                }
                i += 1;
                assert(out@ =~= seq!['['] + render_elements(values_view(*items), i as nat));
            }
            out.push(']');
        },
    }
    assert(out@ =~= render(v@));
    out
}

} // verus!
