//! The evaluator: a tree-walking interpreter with an explicit bound on the
//! number of open frames, and the rules it follows.

use vstd::prelude::*;
use crate::ast::{Expr, FieldInit, Function, Param, Program, Stmt, StmtKind, Type};
use crate::stack::{cut, locate, read_place, write_place, CellView, Stack};
use crate::value::{binary, field_of, find, Store, Val, Value};

verus! {

/// Why a run failed.
#[derive(Clone, Copy, Debug, PartialEq, Eq, Structural)]
pub enum FailureClass {
    /// A `check` found its condition false.
    AssertionFailure,
    /// A call would open more frames than the bound allows.
    StackExhaustion,
    /// A variable, field or function name resolves to nothing.
    UnboundName,
    /// An operand of the wrong kind, a call with the wrong number of
    /// arguments, or a record literal that repeats a field name: the tree is
    /// not one that a front end should hand over.
    Malformed,
}

impl FailureClass {
    /// The wording of the class in diagnostics.
    pub open spec fn text(self) -> Seq<char> {
        match self {
            FailureClass::AssertionFailure => "assertion failure"@,
            FailureClass::StackExhaustion => "stack exhaustion"@,
            FailureClass::UnboundName => "unbound name"@,
            FailureClass::Malformed => "malformed tree"@,
        }
    }

    /// The wording as an owned string.
    pub fn message(&self) -> (r: String)
        ensures
            r@ == self.text(),
    {
        match self {
            FailureClass::AssertionFailure => "assertion failure".to_owned(),
            FailureClass::StackExhaustion => "stack exhaustion".to_owned(),
            FailureClass::UnboundName => "unbound name".to_owned(),
            FailureClass::Malformed => "malformed tree".to_owned(),
        }
    }
}

/// A fatal runtime failure and the line of the statement it arose in.
#[derive(Clone, Copy, Debug, PartialEq, Eq, Structural)]
pub struct Failure {
    pub class: FailureClass,
    pub line: u32,
}

/// How a statement ends: control goes on, or the function returns.
#[derive(Debug)]
pub enum Flow {
    Next,
    Return(Value),
}

/// The content of a `Flow`.
pub ghost enum FlowView {
    Next,
    Return(Val),
}

impl View for Flow {
    type V = FlowView;

    open spec fn view(&self) -> FlowView {
        match self {
            Flow::Next => FlowView::Next,
            Flow::Return(v) => FlowView::Return(v@),
        }
    }
}

/// The failure of class `class` at `line`.
pub open spec fn failure(class: FailureClass, line: u32) -> Failure {
    Failure { class, line }
}

/// The first function called `name` among `functions[from..]`.
pub open spec fn find_function(functions: Seq<Function>, name: Seq<char>, from: int) -> Option<int>
    decreases functions.len() - from,
{
    if 0 <= from < functions.len() {
        if functions[from].name@ == name {
            Some(from)
        } else {
            find_function(functions, name, from + 1)
        }
    } else {
        None
    }
}

/// A parameter that stands for storage of the caller.
pub open spec fn is_reference(ty: Type) -> bool {
    ty is Reference
}

/// The root binding and the field path that an expression names, where it
/// names storage: a variable, or a field of such an expression.
pub open spec fn place_of(e: Expr) -> Option<(Seq<char>, Seq<String>)>
    decreases e,
{
    match e {
        Expr::Var(x) => Some((x@, Seq::empty())),
        Expr::Field(inner, name) => match place_of(*inner) {
            Some((root, path)) => Some((root, path.push(name))),
            None => None,
        },
        _ => None,
    }
}

/// The storage of the caller that an argument names, where it names any:
/// the cell that owns the value and the field path inside it.
pub open spec fn alias_of(stack: Stack, base: int, arg: Expr) -> Option<(int, Seq<String>)> {
    match place_of(arg) {
        Some((root, path)) => match locate(stack, base, root, path) {
            Some((i, full)) => if read_place(stack, i, full) is Some {
                Some((i, full))
            } else {
                None
            },
            None => None,
        },
        None => None,
    }
}

/// The value of `e` in the frame that starts at `base`, and the stack after
/// it: a call may write to storage of its caller through a reference.
/// `depth` is the number of frames that may still be opened; `line` is where
/// a failure is reported.
///
/// A call evaluates its arguments left to right, puts the callee's frame on
/// top of the stack, runs the body there and takes the frame off again. A
/// reference parameter whose argument names storage is bound to that
/// storage itself, so every read and write through it is one of the
/// caller's storage; any other parameter is bound to a copy of the
/// argument's value.
pub open spec fn eval(p: Program, stack: Stack, base: int, e: Expr, line: u32, depth: nat) -> Result<
    (Val, Stack),
    Failure,
>
    decreases 3 * depth, e, 0int,
{
    match e {
        Expr::Int(n) => Ok((Val::Int(n), stack)),
        Expr::Var(x) => match locate(stack, base, x@, Seq::empty()) {
            Some((i, path)) => match read_place(stack, i, path) {
                Some(v) => Ok((v, stack)),
                None => Err(failure(FailureClass::UnboundName, line)),
            },
            None => Err(failure(FailureClass::UnboundName, line)),
        },
        Expr::Field(inner, name) => match eval(p, stack, base, *inner, line, depth) {
            Ok((v, stack1)) => match field_of(v, name@) {
                Some(x) => Ok((x, stack1)),
                None => Err(failure(FailureClass::UnboundName, line)),
            },
            Err(x) => Err(x),
        },
        Expr::Binary(op, left, right) => match eval(p, stack, base, *left, line, depth) {
            Ok((a, stack1)) => match eval(p, stack1, base, *right, line, depth) {
                Ok((b, stack2)) => match binary(op, a, b) {
                    Some(v) => Ok((v, stack2)),
                    None => Err(failure(FailureClass::Malformed, line)),
                },
                Err(x) => Err(x),
            },
            Err(x) => Err(x),
        },
        Expr::Record(inits) => match eval_fields(
            p,
            stack,
            base,
            inits,
            0,
            Seq::empty(),
            line,
            depth,
        ) {
            Ok((fields, stack1)) => Ok((Val::Record(fields), stack1)),
            Err(x) => Err(x),
        },
        Expr::Call(name, args) => match find_function(p.functions@, name@, 0) {
            None => Err(failure(FailureClass::UnboundName, line)),
            Some(k) => {
                let f = p.functions@[k];
                if args.len() != f.params.len() {
                    Err(failure(FailureClass::Malformed, line))
                } else {
                    match eval_args(
                        p,
                        stack,
                        base,
                        args,
                        f.params@,
                        0,
                        Seq::empty(),
                        line,
                        depth,
                    ) {
                        Ok((frame, stack1)) => if depth == 0 {
                            Err(failure(FailureClass::StackExhaustion, line))
                        } else {
                            match invoke(
                                p,
                                f,
                                stack1 + frame,
                                stack1.len() as int,
                                (depth - 1) as nat,
                            ) {
                                Ok((v, stack2)) => Ok((v, cut(stack2, stack1.len() as int))),
                                Err(x) => Err(x),
                            }
                        },
                        Err(x) => Err(x),
                    }
                }
            },
        },
    }
}

/// The fields of a record literal from `inits[from..]`, left to right,
/// appended to `acc`. A name that the record already has is malformed: the
/// field names of a record are unique.
pub open spec fn eval_fields(
    p: Program,
    stack: Stack,
    base: int,
    inits: Vec<FieldInit>,
    from: int,
    acc: Store,
    line: u32,
    depth: nat,
) -> Result<(Store, Stack), Failure>
    decreases 3 * depth, inits, inits.len() - from,
{
    if 0 <= from < inits.len() {
        match eval(p, stack, base, inits[from].value, line, depth) {
            Ok((v, stack1)) => if find(acc, inits[from].name@) is Some {
                Err(failure(FailureClass::Malformed, line))
            } else {
                eval_fields(
                    p,
                    stack1,
                    base,
                    inits,
                    from + 1,
                    acc.push((inits[from].name@, v)),
                    line,
                    depth,
                )
            },
            Err(x) => Err(x),
        }
    } else {
        Ok((acc, stack))
    }
}

/// The callee's frame from `args[from..]`, left to right, appended to `acc`.
/// A reference parameter whose argument names storage of the caller becomes
/// an alias of that storage, and nothing is evaluated or copied for it. Any
/// other parameter holds the value of its argument.
pub open spec fn eval_args(
    p: Program,
    stack: Stack,
    base: int,
    args: Vec<Expr>,
    params: Seq<Param>,
    from: int,
    acc: Stack,
    line: u32,
    depth: nat,
) -> Result<(Stack, Stack), Failure>
    decreases 3 * depth, args, args.len() - from,
{
    if 0 <= from < args.len() && from < params.len() {
        if is_reference(params[from].ty) && alias_of(stack, base, args[from]) is Some {
            let target = alias_of(stack, base, args[from])->Some_0;
            eval_args(
                p,
                stack,
                base,
                args,
                params,
                from + 1,
                acc.push((params[from].name@, CellView::Ref(target.0, target.1))),
                line,
                depth,
            )
        } else {
            match eval(p, stack, base, args[from], line, depth) {
                Ok((v, stack1)) => eval_args(
                    p,
                    stack1,
                    base,
                    args,
                    params,
                    from + 1,
                    acc.push((params[from].name@, CellView::Value(v))),
                    line,
                    depth,
                ),
                Err(x) => Err(x),
            }
        }
    } else {
        Ok((acc, stack))
    }
}

/// The body of `f` run in the frame that starts at `base`: the value
/// returned (unit where the body ends without a `return`) and the stack at
/// the end.
pub open spec fn invoke(p: Program, f: Function, stack: Stack, base: int, depth: nat) -> Result<
    (Val, Stack),
    Failure,
>
    decreases 3 * depth + 2,
{
    match run_block(p, stack, base, f.body, 0, depth) {
        Ok((FlowView::Return(v), stack1)) => Ok((v, stack1)),
        Ok((FlowView::Next, stack1)) => Ok((Val::Unit, stack1)),
        Err(x) => Err(x),
    }
}

/// The effect of one statement: how it ends and the stack after it. A `let`
/// adds a binding that owns a copy of the value. An assignment stores the
/// value in the storage that its target names, which for a reference
/// parameter is storage of the caller. An `if` runs one branch and drops the
/// bindings made in it. A `check` fails the run where its condition is false.
pub open spec fn run_stmt(p: Program, stack: Stack, base: int, s: Stmt, depth: nat) -> Result<
    (FlowView, Stack),
    Failure,
>
    decreases 3 * depth + 1, s, 0int,
{
    match s.kind {
        StmtKind::Let(name, init) => match eval(p, stack, base, init, s.line, depth) {
            Ok((v, stack1)) => Ok((FlowView::Next, stack1.push((name@, CellView::Value(v))))),
            Err(x) => Err(x),
        },
        StmtKind::Assign(place, e) => match eval(p, stack, base, e, s.line, depth) {
            Ok((v, stack1)) => match locate(stack1, base, place.root@, place.path@) {
                Some((i, full)) => match write_place(stack1, i, full, v) {
                    Some(stack2) => Ok((FlowView::Next, stack2)),
                    None => Err(failure(FailureClass::UnboundName, s.line)),
                },
                None => Err(failure(FailureClass::UnboundName, s.line)),
            },
            Err(x) => Err(x),
        },
        StmtKind::If(cond, yes, no) => match eval(p, stack, base, cond, s.line, depth) {
            Ok((Val::Bool(b), stack1)) => match run_block(
                p,
                stack1,
                base,
                if b {
                    yes
                } else {
                    no
                },
                0,
                depth,
            ) {
                Ok((flow, stack2)) => Ok((flow, cut(stack2, stack1.len() as int))),
                Err(x) => Err(x),
            },
            Ok(_) => Err(failure(FailureClass::Malformed, s.line)),
            Err(x) => Err(x),
        },
        StmtKind::Return(e) => match eval(p, stack, base, e, s.line, depth) {
            Ok((v, stack1)) => Ok((FlowView::Return(v), stack1)),
            Err(x) => Err(x),
        },
        StmtKind::Check(e) => match eval(p, stack, base, e, s.line, depth) {
            Ok((Val::Bool(true), stack1)) => Ok((FlowView::Next, stack1)),
            Ok((Val::Bool(false), _)) => Err(failure(FailureClass::AssertionFailure, s.line)),
            Ok(_) => Err(failure(FailureClass::Malformed, s.line)),
            Err(x) => Err(x),
        },
        StmtKind::Eval(e) => match eval(p, stack, base, e, s.line, depth) {
            Ok((_, stack1)) => Ok((FlowView::Next, stack1)),
            Err(x) => Err(x),
        },
    }
}

/// The statements `stmts[from..]` in order, up to the first `return` or failure.
pub open spec fn run_block(
    p: Program,
    stack: Stack,
    base: int,
    stmts: Vec<Stmt>,
    from: int,
    depth: nat,
) -> Result<(FlowView, Stack), Failure>
    decreases 3 * depth + 1, stmts, stmts.len() - from,
{
    if 0 <= from < stmts.len() {
        match run_stmt(p, stack, base, stmts[from], depth) {
            Ok((FlowView::Next, stack1)) => run_block(p, stack1, base, stmts, from + 1, depth),
            Ok((FlowView::Return(v), stack1)) => Ok((FlowView::Return(v), stack1)),
            Err(x) => Err(x),
        }
    } else {
        Ok((FlowView::Next, stack))
    }
}

} // verus!
