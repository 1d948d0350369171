//! What holds of the evaluation rules for every program.

use vstd::prelude::*;
use crate::ast::{Expr, FieldInit, Function, Param, Program, Stmt, StmtKind};
use crate::eval::{
    alias_of, eval, eval_args, eval_fields, failure, find_function, invoke, is_reference,
    run_block, run_stmt, Failure, FailureClass, FlowView,
};
use crate::stack::{locate, write_place, CellView, Stack};
use crate::value::{find, Store, Val};

verus! {

/// A `check` whose condition is false fails the run with an assertion
/// failure at the line of that statement.
pub proof fn law_false_check_fails(
    p: Program,
    stack: Stack,
    base: int,
    s: Stmt,
    cond: Expr,
    depth: nat,
)
    requires
        s.kind == StmtKind::Check(cond),
        eval(p, stack, base, cond, s.line, depth) matches Ok((Val::Bool(false), _)),
    ensures
        run_stmt(p, stack, base, s, depth) == Err::<(FlowView, Stack), _>(
            failure(FailureClass::AssertionFailure, s.line),
        ),
{
}

/// A `check` whose condition is true does nothing beyond what evaluating the
/// condition did.
pub proof fn law_true_check_goes_on(
    p: Program,
    stack: Stack,
    base: int,
    s: Stmt,
    cond: Expr,
    depth: nat,
)
    requires
        s.kind == StmtKind::Check(cond),
        eval(p, stack, base, cond, s.line, depth) matches Ok((Val::Bool(true), _)),
    ensures
        run_stmt(p, stack, base, s, depth) == Ok::<_, Failure>(
            (FlowView::Next, eval(p, stack, base, cond, s.line, depth)->Ok_0.1),
        ),
{
}

/// The first failure ends the block: no statement after it is run, and the
/// block fails as that statement did.
pub proof fn law_first_failure_ends_block(
    p: Program,
    stack: Stack,
    base: int,
    stmts: Vec<Stmt>,
    from: int,
    depth: nat,
)
    requires
        0 <= from < stmts.len(),
        run_stmt(p, stack, base, stmts[from], depth) is Err,
    ensures
        run_block(p, stack, base, stmts, from, depth) is Err,
        run_block(p, stack, base, stmts, from, depth)->Err_0 == run_stmt(
            p,
            stack,
            base,
            stmts[from],
            depth,
        )->Err_0,
{
}

/// A value parameter is a copy: the callee's frame gets the value of the
/// argument in a cell of its own, so that no write in the callee reaches
/// what the caller passed.
pub proof fn law_value_parameter_is_a_copy(
    p: Program,
    stack: Stack,
    base: int,
    args: Vec<Expr>,
    params: Seq<Param>,
    from: int,
    acc: Stack,
    line: u32,
    depth: nat,
)
    requires
        0 <= from < args.len(),
        from < params.len(),
        !is_reference(params[from].ty),
        eval(p, stack, base, args[from], line, depth) is Ok,
    ensures
        ({
            let (v, stack1) = eval(p, stack, base, args[from], line, depth)->Ok_0;
            eval_args(p, stack, base, args, params, from, acc, line, depth) == eval_args(
                p,
                stack1,
                base,
                args,
                params,
                from + 1,
                acc.push((params[from].name@, CellView::Value(v))),
                line,
                depth,
            )
        }),
{
}

/// A reference parameter whose argument names storage of the caller is
/// bound to that storage: nothing is copied and the stack is left as it is.
pub proof fn law_reference_parameter_is_an_alias(
    p: Program,
    stack: Stack,
    base: int,
    args: Vec<Expr>,
    params: Seq<Param>,
    from: int,
    acc: Stack,
    line: u32,
    depth: nat,
)
    requires
        0 <= from < args.len(),
        from < params.len(),
        is_reference(params[from].ty),
        alias_of(stack, base, args[from]) is Some,
    ensures
        ({
            let (i, path) = alias_of(stack, base, args[from])->Some_0;
            eval_args(p, stack, base, args, params, from, acc, line, depth) == eval_args(
                p,
                stack,
                base,
                args,
                params,
                from + 1,
                acc.push((params[from].name@, CellView::Ref(i, path))),
                line,
                depth,
            )
        }),
{
}

/// An assignment stores its value in the storage that the target names: for
/// a target rooted at an alias, in the cell that the alias stands for, which
/// belongs to a caller.
pub proof fn law_assignment_writes_named_storage(
    p: Program,
    stack: Stack,
    base: int,
    s: Stmt,
    depth: nat,
)
    requires
        s.kind is Assign,
        run_stmt(p, stack, base, s, depth) is Ok,
    ensures
        ({
            let place = s.kind->Assign_0;
            let (v, stack1) = eval(p, stack, base, s.kind->Assign_1, s.line, depth)->Ok_0;
            let (i, full) = locate(stack1, base, place.root@, place.path@)->Some_0;
            &&& locate(stack1, base, place.root@, place.path@) is Some
            &&& run_stmt(p, stack, base, s, depth) == Ok::<_, Failure>(
                (FlowView::Next, write_place(stack1, i, full, v)->Some_0),
            )
        }),
{
}

/// The result is a stack exhaustion.
pub open spec fn exhausted<T>(r: Result<T, Failure>) -> bool {
    r matches Err(x) && x.class == FailureClass::StackExhaustion
}

/// An evaluation that does not exhaust the stack does not depend on the
/// bound: with more frames to spare it gives the same value and stack, or
/// the same failure.
pub proof fn law_eval_with_frames_to_spare(
    p: Program,
    stack: Stack,
    base: int,
    e: Expr,
    line: u32,
    depth: nat,
    more: nat,
)
    requires
        depth <= more,
        !exhausted(eval(p, stack, base, e, line, depth)),
    ensures
        eval(p, stack, base, e, line, more) == eval(p, stack, base, e, line, depth),
    decreases 3 * depth, e, 0int,
{
    match e {
        Expr::Field(inner, _) => {
            law_eval_with_frames_to_spare(p, stack, base, *inner, line, depth, more);
        },
        Expr::Binary(_, left, right) => {
            law_eval_with_frames_to_spare(p, stack, base, *left, line, depth, more);
            match eval(p, stack, base, *left, line, depth) {
                Ok((_, stack1)) => {
                    law_eval_with_frames_to_spare(p, stack1, base, *right, line, depth, more);
                },
                Err(_) => {},
            }
        },
        Expr::Record(inits) => {
            lemma_fields_with_frames_to_spare(
                p,
                stack,
                base,
                inits,
                0,
                Seq::empty(),
                line,
                depth,
                more,
            );
        },
        Expr::Call(name, args) => {
            match find_function(p.functions@, name@, 0) {
                Some(k) => {
                    let f = p.functions@[k];
                    if args.len() == f.params.len() {
                        lemma_args_with_frames_to_spare(
                            p,
                            stack,
                            base,
                            args,
                            f.params@,
                            0,
                            Seq::empty(),
                            line,
                            depth,
                            more,
                        );
                        match eval_args(
                            p,
                            stack,
                            base,
                            args,
                            f.params@,
                            0,
                            Seq::empty(),
                            line,
                            depth,
                        ) {
                            Ok((frame, stack1)) => {
                                if depth > 0 {
                                    law_invoke_with_frames_to_spare(
                                        p,
                                        f,
                                        stack1 + frame,
                                        stack1.len() as int,
                                        (depth - 1) as nat,
                                        (more - 1) as nat,
                                    );
                                }
                            },
                            Err(_) => {},
                        }
                    }
                },
                None => {},
            }
        },
        _ => {},
    }
}

/// The same for the fields of a record literal.
pub proof fn lemma_fields_with_frames_to_spare(
    p: Program,
    stack: Stack,
    base: int,
    inits: Vec<FieldInit>,
    from: int,
    acc: Store,
    line: u32,
    depth: nat,
    more: nat,
)
    requires
        depth <= more,
        !exhausted(eval_fields(p, stack, base, inits, from, acc, line, depth)),
    ensures
        eval_fields(p, stack, base, inits, from, acc, line, more) == eval_fields(
            p,
            stack,
            base,
            inits,
            from,
            acc,
            line,
            depth,
        ),
    decreases 3 * depth, inits, inits.len() - from,
{
    if 0 <= from < inits.len() {
        law_eval_with_frames_to_spare(p, stack, base, inits[from].value, line, depth, more);
        match eval(p, stack, base, inits[from].value, line, depth) {
            Ok((v, stack1)) => if find(acc, inits[from].name@) is None {
                lemma_fields_with_frames_to_spare(
                    p,
                    stack1,
                    base,
                    inits,
                    from + 1,
                    acc.push((inits[from].name@, v)),
                    line,
                    depth,
                    more,
                );
            },
            Err(_) => {},
        }
    }
}

/// The same for the arguments of a call.
pub proof fn lemma_args_with_frames_to_spare(
    p: Program,
    stack: Stack,
    base: int,
    args: Vec<Expr>,
    params: Seq<Param>,
    from: int,
    acc: Stack,
    line: u32,
    depth: nat,
    more: nat,
)
    requires
        depth <= more,
        !exhausted(eval_args(p, stack, base, args, params, from, acc, line, depth)),
    ensures
        eval_args(p, stack, base, args, params, from, acc, line, more) == eval_args(
            p,
            stack,
            base,
            args,
            params,
            from,
            acc,
            line,
            depth,
        ),
    decreases 3 * depth, args, args.len() - from,
{
    if 0 <= from < args.len() && from < params.len() {
        if is_reference(params[from].ty) && alias_of(stack, base, args[from]) is Some {
            let target = alias_of(stack, base, args[from])->Some_0;
            lemma_args_with_frames_to_spare(
                p,
                stack,
                base,
                args,
                params,
                from + 1,
                acc.push((params[from].name@, CellView::Ref(target.0, target.1))),
                line,
                depth,
                more,
            );
        } else {
            law_eval_with_frames_to_spare(p, stack, base, args[from], line, depth, more);
            match eval(p, stack, base, args[from], line, depth) {
                Ok((v, stack1)) => {
                    lemma_args_with_frames_to_spare(
                        p,
                        stack1,
                        base,
                        args,
                        params,
                        from + 1,
                        acc.push((params[from].name@, CellView::Value(v))),
                        line,
                        depth,
                        more,
                    );
                },
                Err(_) => {},
            }
        }
    }
}

/// A call that does not exhaust the stack does the same with more frames
/// to spare.
pub proof fn law_invoke_with_frames_to_spare(
    p: Program,
    f: Function,
    stack: Stack,
    base: int,
    depth: nat,
    more: nat,
)
    requires
        depth <= more,
        !exhausted(invoke(p, f, stack, base, depth)),
    ensures
        invoke(p, f, stack, base, more) == invoke(p, f, stack, base, depth),
    decreases 3 * depth + 2,
{
    law_block_with_frames_to_spare(p, stack, base, f.body, 0, depth, more);
}

/// The same for one statement.
pub proof fn lemma_stmt_with_frames_to_spare(
    p: Program,
    stack: Stack,
    base: int,
    s: Stmt,
    depth: nat,
    more: nat,
)
    requires
        depth <= more,
        !exhausted(run_stmt(p, stack, base, s, depth)),
    ensures
        run_stmt(p, stack, base, s, more) == run_stmt(p, stack, base, s, depth),
    decreases 3 * depth + 1, s, 0int,
{
    match s.kind {
        StmtKind::Let(_, e) => {
            law_eval_with_frames_to_spare(p, stack, base, e, s.line, depth, more);
        },
        StmtKind::Assign(_, e) => {
            law_eval_with_frames_to_spare(p, stack, base, e, s.line, depth, more);
        },
        StmtKind::If(cond, yes, no) => {
            law_eval_with_frames_to_spare(p, stack, base, cond, s.line, depth, more);
            match eval(p, stack, base, cond, s.line, depth) {
                Ok((Val::Bool(b), stack1)) => {
                    law_block_with_frames_to_spare(
                        p,
                        stack1,
                        base,
                        if b {
                            yes
                        } else {
                            no
                        },
                        0,
                        depth,
                        more,
                    );
                },
                _ => {},
            }
        },
        StmtKind::Return(e) => {
            law_eval_with_frames_to_spare(p, stack, base, e, s.line, depth, more);
        },
        StmtKind::Check(e) => {
            law_eval_with_frames_to_spare(p, stack, base, e, s.line, depth, more);
        },
        StmtKind::Eval(e) => {
            law_eval_with_frames_to_spare(p, stack, base, e, s.line, depth, more);
        },
    }
}

/// A block that does not exhaust the stack does the same with more frames
/// to spare.
pub proof fn law_block_with_frames_to_spare(
    p: Program,
    stack: Stack,
    base: int,
    stmts: Vec<Stmt>,
    from: int,
    depth: nat,
    more: nat,
)
    requires
        depth <= more,
        !exhausted(run_block(p, stack, base, stmts, from, depth)),
    ensures
        run_block(p, stack, base, stmts, from, more) == run_block(
            p,
            stack,
            base,
            stmts,
            from,
            depth,
        ),
    decreases 3 * depth + 1, stmts, stmts.len() - from,
{
    if 0 <= from < stmts.len() {
        lemma_stmt_with_frames_to_spare(p, stack, base, stmts[from], depth, more);
        match run_stmt(p, stack, base, stmts[from], depth) {
            Ok((FlowView::Next, stack1)) => {
                law_block_with_frames_to_spare(p, stack1, base, stmts, from + 1, depth, more);
            },
            _ => {},
        }
    }
}

/// No two entries of the store have one name.
pub open spec fn distinct_names(store: Store) -> bool {
    forall|i: int, j: int|
        0 <= i < j < store.len() ==> (#[trigger] store[i]).0 != (#[trigger] store[j]).0
}

/// A name that is not found is the name of no entry.
pub proof fn lemma_not_found(store: Store, name: Seq<char>)
    requires
        find(store, name) is None,
    ensures
        forall|i: int| 0 <= i < store.len() ==> (#[trigger] store[i]).0 != name,
    decreases store.len(),
{
    if store.len() > 0 {
        lemma_not_found(store.drop_last(), name);
        assert forall|i: int| 0 <= i < store.len() implies (#[trigger] store[i]).0 != name by {
            if i < store.len() - 1 {
                assert(store[i] == store.drop_last()[i]);
            }
        }
    }
}

/// Fields appended to distinct names stay distinct.
pub proof fn lemma_fields_distinct(
    p: Program,
    env: Stack,
    base: int,
    inits: Vec<FieldInit>,
    from: int,
    acc: Store,
    line: u32,
    depth: nat,
)
    requires
        distinct_names(acc),
        eval_fields(p, env, base, inits, from, acc, line, depth) is Ok,
    ensures
        distinct_names(eval_fields(p, env, base, inits, from, acc, line, depth)->Ok_0.0),
    decreases inits.len() - from,
{
    if 0 <= from < inits.len() {
        match eval(p, env, base, inits[from].value, line, depth) {
            Ok((v, env1)) => {
                let name = inits[from].name@;
                lemma_not_found(acc, name);
                let next = acc.push((name, v));
                assert forall|i: int, j: int| 0 <= i < j < next.len() implies (#[trigger] next[i]).0
                    != (#[trigger] next[j]).0 by {
                    assert(next[i] == acc[i]);
                    if j < acc.len() {
                        assert(next[j] == acc[j]);
                    }
                }
                lemma_fields_distinct(p, env1, base, inits, from + 1, next, line, depth);
            },
            Err(_) => {},
        }
    }
}

/// The field names of a record that a literal evaluates to are unique.
pub proof fn law_record_fields_unique(
    p: Program,
    env: Stack,
    base: int,
    inits: Vec<FieldInit>,
    line: u32,
    depth: nat,
)
    requires
        eval(p, env, base, Expr::Record(inits), line, depth) is Ok,
    ensures
        eval(p, env, base, Expr::Record(inits), line, depth)->Ok_0.0 matches Val::Record(fields)
            && distinct_names(fields),
{
    lemma_fields_distinct(p, env, base, inits, 0, Seq::empty(), line, depth);
}

} // verus!
