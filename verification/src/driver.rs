//! The driver: check every function, and only then run `main`.

use vstd::prelude::*;
use crate::alias::{check_program, program_verdict, Diagnostic, DiagnosticView, Verdict};
use crate::ast::{Expr, Program};
use crate::eval::{eval, failure, find_function, invoke, Failure, FailureClass};
use crate::machine::{eval_expr, invoke_function, lookup_function};
use crate::stack::empty_stack;
use crate::value::Value;

verus! {

/// How a compile-then-run pipeline ends.
#[derive(Debug, PartialEq, Eq)]
pub enum Outcome {
    /// Every function was accepted and `main` ran to its end.
    Success,
    /// The checker rejected a function; nothing was evaluated.
    CompileFailure(Diagnostic),
    /// Every function was accepted and the run failed.
    RuntimeFailure(Failure),
}

/// The content of an `Outcome`.
pub ghost enum OutcomeView {
    Success,
    CompileFailure(DiagnosticView),
    RuntimeFailure(Failure),
}

impl View for Outcome {
    type V = OutcomeView;

    open spec fn view(&self) -> OutcomeView {
        match self {
            Outcome::Success => OutcomeView::Success,
            Outcome::CompileFailure(d) => OutcomeView::CompileFailure(d@),
            Outcome::RuntimeFailure(x) => OutcomeView::RuntimeFailure(*x),
        }
    }
}

/// The name of the entry function.
pub open spec fn entry_name() -> Seq<char> {
    "main"@
}

/// The run of the entry function with at most `max_depth` frames open at a
/// time, its own included. Failures that belong to no statement are reported
/// at line 0: no entry function (unbound name), an entry function with
/// parameters (malformed), no frame to spare (stack exhaustion).
pub open spec fn execution(p: Program, max_depth: nat) -> Result<(), Failure> {
    match find_function(p.functions@, entry_name(), 0) {
        None => Err(failure(FailureClass::UnboundName, 0)),
        Some(k) => if p.functions@[k].params.len() != 0 {
            Err(failure(FailureClass::Malformed, 0))
        } else if max_depth == 0 {
            Err(failure(FailureClass::StackExhaustion, 0))
        } else {
            match invoke(p, p.functions@[k], Seq::empty(), 0, (max_depth - 1) as nat) {
                Ok(_) => Ok(()),
                Err(x) => Err(x),
            }
        },
    }
}

/// The first rejection in declaration order, if there is one; else the
/// result of the run.
pub open spec fn outcome(p: Program, max_depth: nat) -> OutcomeView {
    match program_verdict(p.functions@, 0) {
        Some(d) => OutcomeView::CompileFailure(d),
        None => match execution(p, max_depth) {
            Ok(_) => OutcomeView::Success,
            Err(x) => OutcomeView::RuntimeFailure(x),
        },
    }
}

/// Runs the entry function without checking anything first.
pub fn execute(p: &Program, max_depth: usize) -> (r: Result<(), Failure>)
    ensures
        r == execution(*p, max_depth as nat),
{
    let name = "main".to_owned();
    match lookup_function(p, &name) {
        None => Err(Failure { class: FailureClass::UnboundName, line: 0 }),
        Some(k) => {
            let f = &p.functions[k];
            if f.params.len() != 0 {
                Err(Failure { class: FailureClass::Malformed, line: 0 })
            } else if max_depth == 0 {
                Err(Failure { class: FailureClass::StackExhaustion, line: 0 })
            } else {
                let mut stack = empty_stack();
                match invoke_function(p, f, &mut stack, 0, max_depth - 1) {
                    Ok(_) => Ok(()),
                    Err(x) => Err(x),
                }
            }
        },
    }
}

/// The value of `e` in an empty frame, with at most `max_depth` frames open
/// at a time; failures of `e` itself are reported at line 0.
pub fn evaluate(p: &Program, e: &Expr, max_depth: usize) -> (r: Result<Value, Failure>)
    ensures
        match eval(*p, Seq::empty(), 0, *e, 0, max_depth as nat) {
            Ok((v, _)) => r is Ok && r->Ok_0@ == v,
            Err(x) => r is Err && r->Err_0 == x,
        },
{
    let mut stack = empty_stack();
    eval_expr(p, &mut stack, 0, e, 0, max_depth)
}

/// Checks the program and, if every function is accepted, runs it.
pub fn run(p: &Program, max_depth: usize) -> (o: Outcome)
    ensures
        o@ == outcome(*p, max_depth as nat),
{
    match check_program(p) {
        Verdict::Reject(d) => Outcome::CompileFailure(d),
        Verdict::Accept => match execute(p, max_depth) {
            Ok(_) => Outcome::Success,
            Err(x) => Outcome::RuntimeFailure(x),
        },
    }
}

/// Nothing is evaluated unless every function is accepted: a runtime
/// failure, like a success, is reported only for a program without a
/// rejected function, and a rejection is reported whatever a run would do.
pub proof fn law_check_comes_first(p: Program, max_depth: nat)
    ensures
        program_verdict(p.functions@, 0) is Some <==> outcome(p, max_depth) is CompileFailure,
        program_verdict(p.functions@, 0) matches Some(d) ==> outcome(p, max_depth)
            == OutcomeView::CompileFailure(d),
        outcome(p, max_depth) matches OutcomeView::RuntimeFailure(x) ==> program_verdict(
            p.functions@,
            0,
        ) is None && execution(p, max_depth) == Err::<(), Failure>(x),
{
}

} // verus!
