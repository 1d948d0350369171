//! The interpreter itself: executable counterparts of the evaluation rules.

use vstd::prelude::*;
use crate::ast::{Expr, FieldInit, Function, Param, Program, Stmt, StmtKind, Type};
use crate::eval::{
    alias_of, eval, eval_args, eval_fields, find_function, invoke, is_reference, place_of,
    run_block, run_stmt, Failure, FailureClass, Flow, FlowView,
};
use crate::stack::{
    cut, empty_stack, locate_in, read_place_in, stack_of, write_place_in, Cell, CellView, Entry,
    Stack,
};
use crate::value::{
    apply_binary, find_slot, get_field, lemma_record_view, store_of, Slot, Store, Val, Value,
};

verus! {

/// The executable result is the one the rules give, and the stack ends as
/// they say. After a failure nothing is promised of the stack.
pub open spec fn value_agrees(
    r: Result<Value, Failure>,
    after: Stack,
    want: Result<(Val, Stack), Failure>,
) -> bool {
    match want {
        Ok((v, stack)) => r is Ok && r->Ok_0@ == v && after == stack,
        Err(x) => r is Err && r->Err_0 == x,
    }
}

/// The same for the fields of a record.
pub open spec fn store_agrees(
    r: Result<Vec<Slot>, Failure>,
    after: Stack,
    want: Result<(Store, Stack), Failure>,
) -> bool {
    match want {
        Ok((s, stack)) => r is Ok && store_of(r->Ok_0@) == s && after == stack,
        Err(x) => r is Err && r->Err_0 == x,
    }
}

/// The same for the frame of a call.
pub open spec fn frame_agrees(
    r: Result<Vec<Entry>, Failure>,
    after: Stack,
    want: Result<(Stack, Stack), Failure>,
) -> bool {
    match want {
        Ok((s, stack)) => r is Ok && stack_of(r->Ok_0@) == s && after == stack,
        Err(x) => r is Err && r->Err_0 == x,
    }
}

/// The same for the way a statement ends.
pub open spec fn flow_agrees(
    r: Result<Flow, Failure>,
    after: Stack,
    want: Result<(FlowView, Stack), Failure>,
) -> bool {
    match want {
        Ok((flow, stack)) => r is Ok && r->Ok_0@ == flow && after == stack,
        Err(x) => r is Err && r->Err_0 == x,
    }
}

/// The index of the first function called `name`.
pub fn lookup_function(p: &Program, name: &String) -> (r: Option<usize>)
    ensures
        match r {
            Some(k) => find_function(p.functions@, name@, 0) == Some(k as int) && k
                < p.functions.len(),
            None => find_function(p.functions@, name@, 0) is None,
        },
{
    let mut i: usize = 0;
    while i < p.functions.len()
        invariant
            i <= p.functions.len(),
            find_function(p.functions@, name@, 0) == find_function(p.functions@, name@, i as int),
        decreases p.functions.len() - i,
    {
        if p.functions[i].name == *name {
            return Some(i);
        }
        i += 1;
    }
    None
}

/// A set of slots with nothing in it.
pub fn empty_slots() -> (slots: Vec<Slot>)
    ensures
        store_of(slots@) == Seq::<(Seq<char>, Val)>::empty(),
{
    let slots: Vec<Slot> = Vec::new();
    assert(store_of(slots@) =~= Seq::<(Seq<char>, Val)>::empty());
    slots
}

/// Whether a parameter of this type stands for storage of the caller.
pub fn reference_type(ty: &Type) -> (r: bool)
    ensures
        r == is_reference(*ty),
{
    match ty {
        Type::Reference(_, _) => true,
        _ => false,
    }
}

/// The root and path of an expression that names storage, as owned copies.
pub fn place_in(e: &Expr) -> (r: Option<(String, Vec<String>)>)
    ensures
        match r {
            Some((root, path)) => place_of(*e) == Some((root@, path@)),
            None => place_of(*e) is None,
        },
    decreases e,
{
    match e {
        Expr::Var(x) => Some((x.clone(), Vec::new())),
        Expr::Field(inner, name) => match place_in(inner) {
            Some((root, path)) => {
                let mut path = path;
                path.push(name.clone());
                Some((root, path))
            },
            None => None,
        },
        _ => None,
    }
}

/// The storage of the caller that an argument names, where it names any.
pub fn alias_in(stack: &Vec<Entry>, base: usize, arg: &Expr) -> (r: Option<(usize, Vec<String>)>)
    ensures
        match r {
            Some((i, full)) => alias_of(stack_of(stack@), base as int, *arg) == Some(
                (i as int, full@),
            ),
            None => alias_of(stack_of(stack@), base as int, *arg) is None,
        },
{
    match place_in(arg) {
        Some((root, path)) => match locate_in(stack, base, &root, &path) {
            Some((i, full)) => {
                if read_place_in(stack, i, &full).is_some() {
                    Some((i, full))
                } else {
                    None
                }
            },
            None => None,
        },
        None => None,
    }
}

/// Evaluates `e` in the frame that starts at `base`. `depth` is the number
/// of frames that may still be opened, `line` the line to report a failure at.
pub fn eval_expr(
    p: &Program,
    stack: &mut Vec<Entry>,
    base: usize,
    e: &Expr,
    line: u32,
    depth: usize,
) -> (r: Result<Value, Failure>)
    ensures
        value_agrees(
            r,
            stack_of(final(stack)@),
            eval(*p, stack_of(old(stack)@), base as int, *e, line, depth as nat),
        ),
    decreases 3 * depth, e, 0int,
{
    match e {
        Expr::Int(n) => Ok(Value::Int(*n)),
        Expr::Var(x) => {
            let none: Vec<String> = Vec::new();
            match locate_in(stack, base, x, &none) {
                Some((i, path)) => match read_place_in(stack, i, &path) {
                    Some(v) => Ok(v),
                    None => Err(Failure { class: FailureClass::UnboundName, line }),
                },
                None => Err(Failure { class: FailureClass::UnboundName, line }),
            }
        },
        Expr::Field(inner, name) => match eval_expr(p, stack, base, inner, line, depth) {
            Ok(v) => match get_field(&v, name) {
                Some(x) => Ok(x),
                None => Err(Failure { class: FailureClass::UnboundName, line }),
            },
            Err(x) => Err(x),
        },
        Expr::Binary(op, left, right) => match eval_expr(p, stack, base, left, line, depth) {
            Ok(a) => match eval_expr(p, stack, base, right, line, depth) {
                Ok(b) => match apply_binary(*op, &a, &b) {
                    Some(v) => Ok(v),
                    None => Err(Failure { class: FailureClass::Malformed, line }),
                },
                Err(x) => Err(x),
            },
            Err(x) => Err(x),
        },
        Expr::Record(inits) => match eval_field_inits(
            p,
            stack,
            base,
            inits,
            0,
            empty_slots(),
            line,
            depth,
        ) {
            Ok(slots) => {
                proof {
                    lemma_record_view(slots);
                }
                Ok(Value::Record(slots))
            },
            Err(x) => Err(x),
        },
        Expr::Call(name, args) => match lookup_function(p, name) {
            None => Err(Failure { class: FailureClass::UnboundName, line }),
            Some(k) => {
                let f = &p.functions[k];
                if args.len() != f.params.len() {
                    Err(Failure { class: FailureClass::Malformed, line })
                } else {
                    match eval_arguments(
                        p,
                        stack,
                        base,
                        args,
                        &f.params,
                        0,
                        empty_stack(),
                        line,
                        depth,
                    ) {
                        Ok(frame) => {
                            if depth == 0 {
                                Err(Failure { class: FailureClass::StackExhaustion, line })
                            } else {
                                let mark: usize = stack.len();
                                let ghost below = stack@;
                                let ghost top = frame@;
                                let mut frame = frame;
                                stack.append(&mut frame);
                                assert(stack_of(stack@) =~= stack_of(below) + stack_of(top));
                                match invoke_function(p, f, stack, mark, depth - 1) {
                                    Ok(v) => {
                                        let ghost before = stack@;
                                        stack.truncate(mark);
                                        assert(stack_of(stack@) =~= cut(
                                            stack_of(before),
                                            mark as int,
                                        ));
                                        Ok(v)
                                    },
                                    Err(x) => Err(x),
                                }
                            }
                        },
                        Err(x) => Err(x),
                    }
                }
            },
        },
    }
}

/// Evaluates the fields of a record literal from `from` on and appends them to `acc`.
pub fn eval_field_inits(
    p: &Program,
    stack: &mut Vec<Entry>,
    base: usize,
    inits: &Vec<FieldInit>,
    from: usize,
    acc: Vec<Slot>,
    line: u32,
    depth: usize,
) -> (r: Result<Vec<Slot>, Failure>)
    ensures
        store_agrees(
            r,
            stack_of(final(stack)@),
            eval_fields(
                *p,
                stack_of(old(stack)@),
                base as int,
                *inits,
                from as int,
                store_of(acc@),
                line,
                depth as nat,
            ),
        ),
    decreases 3 * depth, inits, inits.len() - from,
{
    if from < inits.len() {
        match eval_expr(p, stack, base, &inits[from].value, line, depth) {
            Ok(v) => {
                if find_slot(&acc, &inits[from].name).is_some() {
                    return Err(Failure { class: FailureClass::Malformed, line });
                }
                let mut acc = acc;
                let ghost before = acc@;
                acc.push(Slot { name: inits[from].name.clone(), value: v });
                assert(store_of(acc@) =~= store_of(before).push((inits[from as int].name@, v@)));
                eval_field_inits(p, stack, base, inits, from + 1, acc, line, depth)
            },
            Err(x) => Err(x),
        }
    } else {
        Ok(acc)
    }
}

/// Builds the callee's frame from the arguments from `from` on, appended to
/// `acc`: an alias for a reference parameter whose argument names storage, a
/// value for any other.
pub fn eval_arguments(
    p: &Program,
    stack: &mut Vec<Entry>,
    base: usize,
    args: &Vec<Expr>,
    params: &Vec<Param>,
    from: usize,
    acc: Vec<Entry>,
    line: u32,
    depth: usize,
) -> (r: Result<Vec<Entry>, Failure>)
    ensures
        frame_agrees(
            r,
            stack_of(final(stack)@),
            eval_args(
                *p,
                stack_of(old(stack)@),
                base as int,
                *args,
                params@,
                from as int,
                stack_of(acc@),
                line,
                depth as nat,
            ),
        ),
    decreases 3 * depth, args, args.len() - from,
{
    if from < args.len() && from < params.len() {
        let target = if reference_type(&params[from].ty) {
            alias_in(stack, base, &args[from])
        } else {
            None
        };
        let mut acc = acc;
        let ghost before = acc@;
        match target {
            Some((i, full)) => {
                let ghost path = full@;
                acc.push(Entry { name: params[from].name.clone(), cell: Cell::Ref(i, full) });
                assert(stack_of(acc@) =~= stack_of(before).push(
                    (params@[from as int].name@, CellView::Ref(i as int, path)),
                ));
                eval_arguments(p, stack, base, args, params, from + 1, acc, line, depth)
            },
            None => match eval_expr(p, stack, base, &args[from], line, depth) {
                Ok(v) => {
                    acc.push(Entry { name: params[from].name.clone(), cell: Cell::Value(v) });
                    assert(stack_of(acc@) =~= stack_of(before).push(
                        (params@[from as int].name@, CellView::Value(v@)),
                    ));
                    eval_arguments(p, stack, base, args, params, from + 1, acc, line, depth)
                },
                Err(x) => Err(x),
            },
        }
    } else {
        Ok(acc)
    }
}

/// Runs the body of `f` in the frame that starts at `base`, with `depth`
/// further frames to spare.
pub fn invoke_function(
    p: &Program,
    f: &Function,
    stack: &mut Vec<Entry>,
    base: usize,
    depth: usize,
) -> (r: Result<Value, Failure>)
    ensures
        value_agrees(
            r,
            stack_of(final(stack)@),
            invoke(*p, *f, stack_of(old(stack)@), base as int, depth as nat),
        ),
    decreases 3 * depth + 2,
{
    match run_statements(p, stack, base, &f.body, 0, depth) {
        Ok(Flow::Return(v)) => Ok(v),
        Ok(Flow::Next) => Ok(Value::Unit),
        Err(x) => Err(x),
    }
}

/// Runs one statement in the frame that starts at `base`.
pub fn run_statement(
    p: &Program,
    stack: &mut Vec<Entry>,
    base: usize,
    s: &Stmt,
    depth: usize,
) -> (r: Result<Flow, Failure>)
    ensures
        flow_agrees(
            r,
            stack_of(final(stack)@),
            run_stmt(*p, stack_of(old(stack)@), base as int, *s, depth as nat),
        ),
    decreases 3 * depth + 1, s, 0int,
{
    match &s.kind {
        StmtKind::Let(name, init) => match eval_expr(p, stack, base, init, s.line, depth) {
            Ok(v) => {
                let ghost before = stack@;
                stack.push(Entry { name: name.clone(), cell: Cell::Value(v) });
                assert(stack_of(stack@) =~= stack_of(before).push((name@, CellView::Value(v@))));
                Ok(Flow::Next)
            },
            Err(x) => Err(x),
        },
        StmtKind::Assign(place, e) => match eval_expr(p, stack, base, e, s.line, depth) {
            Ok(v) => match locate_in(stack, base, &place.root, &place.path) {
                Some((i, full)) => {
                    if write_place_in(stack, i, &full, v) {
                        Ok(Flow::Next)
                    } else {
                        Err(Failure { class: FailureClass::UnboundName, line: s.line })
                    }
                },
                None => Err(Failure { class: FailureClass::UnboundName, line: s.line }),
            },
            Err(x) => Err(x),
        },
        StmtKind::If(cond, yes, no) => match eval_expr(p, stack, base, cond, s.line, depth) {
            Ok(Value::Bool(b)) => {
                let mark: usize = stack.len();
                let branch = if b {
                    yes
                } else {
                    no
                };
                match run_statements(p, stack, base, branch, 0, depth) {
                    Ok(flow) => {
                        let ghost before = stack@;
                        stack.truncate(mark);
                        assert(stack_of(stack@) =~= cut(stack_of(before), mark as int));
                        Ok(flow)
                    },
                    Err(x) => Err(x),
                }
            },
            Ok(_) => Err(Failure { class: FailureClass::Malformed, line: s.line }),
            Err(x) => Err(x),
        },
        StmtKind::Return(e) => match eval_expr(p, stack, base, e, s.line, depth) {
            Ok(v) => Ok(Flow::Return(v)),
            Err(x) => Err(x),
        },
        StmtKind::Check(e) => match eval_expr(p, stack, base, e, s.line, depth) {
            Ok(Value::Bool(true)) => Ok(Flow::Next),
            Ok(Value::Bool(false)) => Err(
                Failure { class: FailureClass::AssertionFailure, line: s.line },
            ),
            Ok(_) => Err(Failure { class: FailureClass::Malformed, line: s.line }),
            Err(x) => Err(x),
        },
        StmtKind::Eval(e) => match eval_expr(p, stack, base, e, s.line, depth) {
            Ok(_) => Ok(Flow::Next),
            Err(x) => Err(x),
        },
    }
}

/// Runs the statements from `from` on, up to the first `return` or failure.
pub fn run_statements(
    p: &Program,
    stack: &mut Vec<Entry>,
    base: usize,
    stmts: &Vec<Stmt>,
    from: usize,
    depth: usize,
) -> (r: Result<Flow, Failure>)
    ensures
        flow_agrees(
            r,
            stack_of(final(stack)@),
            run_block(*p, stack_of(old(stack)@), base as int, *stmts, from as int, depth as nat),
        ),
    decreases 3 * depth + 1, stmts, stmts.len() - from,
{
    if from < stmts.len() {
        match run_statement(p, stack, base, &stmts[from], depth) {
            Ok(Flow::Next) => run_statements(p, stack, base, stmts, from + 1, depth),
            Ok(Flow::Return(v)) => Ok(Flow::Return(v)),
            Err(x) => Err(x),
        }
    } else {
        Ok(Flow::Next)
    }
}

} // verus!
