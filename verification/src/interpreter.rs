//! The whole way from source text to the state the program leaves behind.

use vstd::prelude::*;
use crate::ast::StmtView;
use crate::error::{Error, ErrorView};
use crate::grammar::{open_cursor, parse_program, ParserView};
use crate::lexer::{Lexer};
use crate::scanning::{start_of};
use crate::parser::Parser;
use crate::semantics::{exec_block, initial_state, VmView};
use crate::vm::Vm;

verus! {

/// The budget that `run` grants to the parser and to the evaluator.
pub open spec fn full_budget() -> nat {
    u64::MAX as nat
}

/// The statements that a source text parses to, and the state in which
/// they start to run: the initial one, with the constants of the `enum`
/// declarations of the text.
pub open spec fn load(source: Seq<char>) -> Result<(Seq<StmtView>, VmView), ErrorView> {
    match open_cursor(start_of(source)) {
        Ok(cursor) => match parse_program(
            ParserView { cursor, constants: Map::empty() },
            full_budget(),
        ) {
            Ok((stmts, parser)) => Ok(
                (stmts, VmView { constants: parser.constants, ..initial_state() }),
            ),
            Err(e) => Err(e),
        },
        Err(e) => Err(e),
    }
}

/// The state that a source text leaves behind: that after its statements,
/// run in order from the state they load into.
pub open spec fn run_program(source: Seq<char>) -> Result<VmView, ErrorView> {
    match load(source) {
        Ok((stmts, st)) => exec_block(st, stmts, 0, full_budget()),
        Err(e) => Err(e),
    }
}

/// Parses a source text and runs it in a fresh evaluator, which it returns.
pub fn run(source: &str) -> (res: Result<Vm, Error>)
    ensures
        match res {
            Ok(vm) => vm.wf() && run_program(source@) == Ok::<VmView, ErrorView>(vm@),
            Err(e) => run_program(source@) == Err::<VmView, ErrorView>(e@),
        },
{
    let lexer = Lexer::new(source);
    let mut vm = Vm::new();
    let mut parser = match Parser::new(lexer, &mut vm) {
        Ok(parser) => parser,
        Err(e) => {
            return Err(e);
        },
    };
    let stmts = match parser.parse() {
        Ok(stmts) => stmts,
        Err(e) => {
            return Err(e);
        },
    };
    let budget = vm.budget;
    match vm.exec_block(&stmts, budget) {
        Ok(_) => Ok(vm),
        Err(e) => Err(e),
    }
}

} // verus!
