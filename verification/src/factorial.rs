//! The factorial program, ready-made, and what it evaluates to.

use vstd::prelude::*;
use crate::alias::{function_verdict, param_modes, program_verdict, scan_block, scan_stmt, FindingView};
use crate::ast::{BinOp, Expr, Function, Param, Program, Stmt, StmtKind, Type};
use crate::driver::{execution, outcome, OutcomeView};
use crate::eval::{
    eval, eval_args, failure, find_function, invoke, run_block, run_stmt, Failure, FailureClass,
    FlowView,
};
use crate::stack::{cut, find_in, locate, read_place, CellView, Stack};
use crate::value::{field_path, Val};

verus! {

/// The factorial of `n` in the machine's integers, which wrap around.
pub open spec fn factorial_of(n: i64) -> i64
    decreases n,
{
    if n <= 1 {
        1
    } else {
        n.wrapping_mul(factorial_of((n - 1) as i64))
    }
}

/// `e` is the variable called `name`.
pub open spec fn is_var(e: Expr, name: Seq<char>) -> bool {
    e matches Expr::Var(x) && x@ == name
}

/// `e` applies `op` to the variable `name` and to the expression `right`.
pub open spec fn is_binary_on(e: Expr, op: BinOp, name: Seq<char>) -> bool {
    e matches Expr::Binary(o, l, _) && o == op && is_var(*l, name)
}

/// `f` is the recursive factorial: it takes the integer `x`, returns 1 where
/// `x == 1`, and else binds `y` to `x * f(x - 1)` and returns `y`.
pub open spec fn is_factorial(f: Function) -> bool {
    &&& f.params@.len() == 1
    &&& f.params@[0].name@ == "x"@
    &&& f.params@[0].ty is Integer
    &&& f.body@.len() == 1
    &&& f.body@[0].kind matches StmtKind::If(cond, yes, no) && {
        &&& is_binary_on(cond, BinOp::Eq, "x"@)
        &&& *cond->Binary_2 == Expr::Int(1)
        &&& yes@.len() == 1
        &&& yes@[0].kind == StmtKind::Return(Expr::Int(1))
        &&& no@.len() == 2
        &&& no@[0].kind matches StmtKind::Let(y, init) && {
            &&& y@ == "y"@
            &&& is_binary_on(init, BinOp::Mul, "x"@)
            &&& *init->Binary_2 matches Expr::Call(g, args) && {
                &&& g@ == "f"@
                &&& args@.len() == 1
                &&& is_binary_on(args@[0], BinOp::Sub, "x"@)
                &&& *args@[0]->Binary_2 == Expr::Int(1)
            }
        }
        &&& no@[1].kind matches StmtKind::Return(e) && is_var(e, "y"@)
    }
}

/// A variable that is the innermost binding of the frame and owns a value
/// evaluates to that value.
pub proof fn lemma_top_variable(
    p: Program,
    stack: Stack,
    base: int,
    e: Expr,
    v: Val,
    line: u32,
    depth: nat,
)
    requires
        stack.len() > base,
        stack.len() > 0,
        e is Var,
        stack.last() == (e->Var_0@, CellView::Value(v)),
    ensures
        eval(p, stack, base, e, line, depth) == Ok::<_, Failure>((v, stack)),
{
    let name = e->Var_0@;
    assert(find_in(stack, base, name) == Some(stack.len() - 1));
    assert(locate(stack, base, name, Seq::empty()) == Some((stack.len() - 1, Seq::<String>::empty())));
    assert(field_path(v, Seq::<String>::empty(), 0) == Some(v));
    assert(read_place(stack, stack.len() - 1, Seq::<String>::empty()) == Some(v));
}

/// `op` applied to the innermost variable and to a literal.
pub proof fn lemma_top_variable_op(
    p: Program,
    stack: Stack,
    base: int,
    e: Expr,
    n: i64,
    k: i64,
    line: u32,
    depth: nat,
)
    requires
        stack.len() > base,
        stack.len() > 0,
        e is Binary,
        *e->Binary_1 is Var,
        stack.last() == ((*e->Binary_1)->Var_0@, CellView::Value(Val::Int(n))),
        *e->Binary_2 == Expr::Int(k),
    ensures
        eval(p, stack, base, e, line, depth) == match crate::value::binary(
            e->Binary_0,
            Val::Int(n),
            Val::Int(k),
        ) {
            Some(v) => Ok::<_, Failure>((v, stack)),
            None => Err(failure(FailureClass::Malformed, line)),
        },
{
    lemma_top_variable(p, stack, base, *e->Binary_1, Val::Int(n), line, depth);
    assert(eval(p, stack, base, *e->Binary_2, line, depth) == Ok::<_, Failure>(
        (Val::Int(k), stack),
    ));
}

/// The factorial function, called with `n` from 1 up and with enough frames
/// to spare, returns the factorial of `n` and leaves the stack as it was.
pub proof fn law_factorial_value(
    p: Program,
    k: int,
    stack: Stack,
    n: i64,
    depth: nat,
)
    requires
        find_function(p.functions@, "f"@, 0) == Some(k),
        0 <= k < p.functions@.len(),
        is_factorial(p.functions@[k]),
        n >= 1,
        depth >= n - 1,
    ensures
        invoke(
            p,
            p.functions@[k],
            stack.push(("x"@, CellView::Value(Val::Int(n)))),
            stack.len() as int,
            depth,
        ) == Ok::<_, Failure>(
            (Val::Int(factorial_of(n)), stack.push(("x"@, CellView::Value(Val::Int(n))))),
        ),
    decreases n,
{
    let f = p.functions@[k];
    let top = stack.push(("x"@, CellView::Value(Val::Int(n))));
    let base = stack.len() as int;
    let s = f.body@[0];
    let cond = s.kind->If_0;
    let yes = s.kind->If_1;
    let no = s.kind->If_2;
    lemma_top_variable_op(p, top, base, cond, n, 1, s.line, depth);
    assert(eval(p, top, base, cond, s.line, depth) == Ok::<_, Failure>((Val::Bool(n == 1), top)));
    assert(cut(top, top.len() as int) =~= top);
    if n == 1 {
        assert(run_stmt(p, top, base, yes[0], depth) == Ok::<_, Failure>(
            (FlowView::Return(Val::Int(1)), top),
        ));
        assert(run_block(p, top, base, yes, 0, depth) == Ok::<_, Failure>(
            (FlowView::Return(Val::Int(1)), top),
        ));
        assert(run_stmt(p, top, base, s, depth) == Ok::<_, Failure>(
            (FlowView::Return(Val::Int(1)), top),
        ));
    } else {
        let bind = no[0];
        let init = bind.kind->Let_1;
        let callee = *init->Binary_2;
        let args = callee->Call_1;
        let arg = args@[0];
        let less = (n - 1) as i64;
        lemma_top_variable(p, top, base, *init->Binary_1, Val::Int(n), bind.line, depth);
        lemma_top_variable_op(p, top, base, arg, n, 1, bind.line, depth);
        assert(eval(p, top, base, arg, bind.line, depth) == Ok::<_, Failure>(
            (Val::Int(less), top),
        ));
        let frame = Seq::<(Seq<char>, CellView)>::empty().push(
            ("x"@, CellView::Value(Val::Int(less))),
        );
        assert(eval_args(p, top, base, args, f.params@, 1, frame, bind.line, depth)
            == Ok::<_, Failure>((frame, top)));
        assert(eval_args(p, top, base, args, f.params@, 0, Seq::empty(), bind.line, depth)
            == Ok::<_, Failure>((frame, top)));
        law_factorial_value(p, k, top, less, (depth - 1) as nat);
        let above = top.push(("x"@, CellView::Value(Val::Int(less))));
        assert(top + frame =~= above);
        assert(cut(above, top.len() as int) =~= top);
        assert(eval(p, top, base, callee, bind.line, depth) == Ok::<_, Failure>(
            (Val::Int(factorial_of(less)), top),
        ));
        assert(eval(p, top, base, init, bind.line, depth) == Ok::<_, Failure>(
            (Val::Int(factorial_of(n)), top),
        ));
        let bound = top.push(("y"@, CellView::Value(Val::Int(factorial_of(n)))));
        assert(run_stmt(p, top, base, bind, depth) == Ok::<_, Failure>((FlowView::Next, bound)));
        lemma_top_variable(
            p,
            bound,
            base,
            no[1].kind->Return_0,
            Val::Int(factorial_of(n)),
            no[1].line,
            depth,
        );
        assert(run_stmt(p, bound, base, no[1], depth) == Ok::<_, Failure>(
            (FlowView::Return(Val::Int(factorial_of(n))), bound),
        ));
        assert(run_block(p, bound, base, no, 1, depth) == Ok::<_, Failure>(
            (FlowView::Return(Val::Int(factorial_of(n))), bound),
        ));
        assert(run_block(p, top, base, no, 0, depth) == Ok::<_, Failure>(
            (FlowView::Return(Val::Int(factorial_of(n))), bound),
        ));
        assert(cut(bound, top.len() as int) =~= top);
        assert(run_stmt(p, top, base, s, depth) == Ok::<_, Failure>(
            (FlowView::Return(Val::Int(factorial_of(n))), top),
        ));
    }
    assert(run_block(p, top, base, f.body, 0, depth) == Ok::<_, Failure>(
        (FlowView::Return(Val::Int(factorial_of(n))), top),
    ));
}

/// `e` is the call `f(n)` with `n` written as a literal.
pub open spec fn is_call_with(e: Expr, n: i64) -> bool {
    e matches Expr::Call(g, args) && {
        &&& g@ == "f"@
        &&& args@.len() == 1
        &&& args@[0] == Expr::Int(n)
    }
}

/// In a program whose `f` is the factorial function, the call `f(n)` with
/// `n` from 1 up evaluates to the factorial of `n` with `n` frames or more
/// to spare, and leaves the stack as it was.
pub proof fn law_factorial_call(
    p: Program,
    k: int,
    stack: Stack,
    base: int,
    call: Expr,
    n: i64,
    line: u32,
    depth: nat,
)
    requires
        find_function(p.functions@, "f"@, 0) == Some(k),
        0 <= k < p.functions@.len(),
        is_factorial(p.functions@[k]),
        is_call_with(call, n),
        n >= 1,
        depth >= n,
    ensures
        eval(p, stack, base, call, line, depth) == Ok::<_, Failure>(
            (Val::Int(factorial_of(n)), stack),
        ),
{
    let f = p.functions@[k];
    let args = call->Call_1;
    let none = Seq::<(Seq<char>, CellView)>::empty();
    let frame = none.push(("x"@, CellView::Value(Val::Int(n))));
    assert(eval(p, stack, base, args@[0], line, depth) == Ok::<_, Failure>((Val::Int(n), stack)));
    assert(eval_args(p, stack, base, args, f.params@, 1, frame, line, depth) == Ok::<_, Failure>(
        (frame, stack),
    ));
    assert(eval_args(p, stack, base, args, f.params@, 0, none, line, depth) == Ok::<_, Failure>(
        (frame, stack),
    ));
    law_factorial_value(p, k, stack, n, (depth - 1) as nat);
    let above = stack.push(("x"@, CellView::Value(Val::Int(n))));
    assert(stack + frame =~= above);
    assert(cut(above, stack.len() as int) =~= stack);
}

/// `m` takes nothing and holds one statement, on line 20: the check that
/// `f(5) == expected`.
pub open spec fn is_checking_entry(m: Function, expected: i64) -> bool {
    &&& m.params@.len() == 0
    &&& m.body@.len() == 1
    &&& m.body@[0].line == 20
    &&& m.body@[0].kind matches StmtKind::Check(e) && {
        &&& e matches Expr::Binary(op, l, r) && {
            &&& op == BinOp::Eq
            &&& *r == Expr::Int(expected)
            &&& is_call_with(*l, 5)
        }
    }
}

/// The outcome of the factorial program that checks `f(5)` against
/// `expected`.
pub open spec fn checked_outcome(expected: i64) -> OutcomeView {
    if expected == 120 {
        OutcomeView::Success
    } else {
        OutcomeView::RuntimeFailure(failure(FailureClass::AssertionFailure, 20))
    }
}

/// The recursive factorial function `f`. The checker accepts it.
pub fn factorial() -> (d: Function)
    ensures
        d.name@ == "f"@,
        is_factorial(d),
        d.ret == Some(Type::Integer),
        d.body@[0].line == 8,
        function_verdict(d) is None,
{
    let x_is_one = Expr::Binary(
        BinOp::Eq,
        Box::new(Expr::Var("x".to_owned())),
        Box::new(Expr::Int(1)),
    );
    let x_less_one = Expr::Binary(
        BinOp::Sub,
        Box::new(Expr::Var("x".to_owned())),
        Box::new(Expr::Int(1)),
    );
    let product = Expr::Binary(
        BinOp::Mul,
        Box::new(Expr::Var("x".to_owned())),
        Box::new(Expr::Call("f".to_owned(), vec![x_less_one])),
    );
    let yes = vec![Stmt { line: 10, kind: StmtKind::Return(Expr::Int(1)) }];
    let no = vec![
        Stmt { line: 13, kind: StmtKind::Let("y".to_owned(), product) },
        Stmt { line: 16, kind: StmtKind::Return(Expr::Var("y".to_owned())) },
    ];
    let d = Function {
        name: "f".to_owned(),
        params: vec![Param { name: "x".to_owned(), ty: Type::Integer }],
        ret: Some(Type::Integer),
        body: vec![Stmt { line: 8, kind: StmtKind::If(x_is_one, yes, no) }],
    };
    proof {
        let modes = param_modes(d.params@);
        let s = d.body@[0];
        let yes = s.kind->If_1;
        let no = s.kind->If_2;
        assert(scan_stmt(modes, yes[0]) == (None::<FindingView>, modes));
        assert(scan_block(modes, yes, 1) is None);
        assert(scan_block(modes, yes, 0) is None);
        let inner = scan_stmt(modes, no[0]).1;
        assert(scan_stmt(modes, no[0]).0 is None);
        assert(scan_stmt(inner, no[1]) == (None::<FindingView>, inner));
        assert(scan_block(inner, no, 2) is None);
        assert(scan_block(inner, no, 1) is None);
        assert(scan_block(modes, no, 0) is None);
        assert(scan_stmt(modes, s) == (None::<FindingView>, modes));
        assert(scan_block(modes, d.body, 1) is None);
        assert(scan_block(modes, d.body, 0) is None);
    }
    d
}

/// The factorial program: the function `f` and an entry function whose one
/// statement, on line 20, checks that `f(5) == expected`. With six frames or
/// more it runs to success where `expected` is 120, and else fails with an
/// assertion failure on that line; no function of it is rejected.
pub fn factorial_program(expected: i64) -> (p: Program)
    ensures
        p.name@ == "root"@,
        p.functions@.len() == 2,
        is_factorial(p.functions@[0]),
        p.functions@[0].name@ == "f"@,
        p.functions@[1].name@ == "main"@,
        is_checking_entry(p.functions@[1], expected),
        program_verdict(p.functions@, 0) is None,
        forall|depth: nat| depth >= 6 ==> #[trigger] outcome(p, depth) == checked_outcome(expected),
{
    let call = Expr::Call("f".to_owned(), vec![Expr::Int(5)]);
    let main = Function {
        name: "main".to_owned(),
        params: Vec::new(),
        ret: None,
        body: vec![
            Stmt {
                line: 20,
                kind: StmtKind::Check(
                    Expr::Binary(BinOp::Eq, Box::new(call), Box::new(Expr::Int(expected))),
                ),
            },
        ],
    };
    let p = Program { name: "root".to_owned(), functions: vec![factorial(), main] };
    proof {
        reveal_strlit("f");
        reveal_strlit("main");
        let fs = p.functions@;
        let f = fs[0];
        let m = fs[1];
        assert("f"@ != "main"@) by {
            assert("f"@.len() == 1);
            assert("main"@.len() == 4);
        }
        let modes = param_modes(m.params@);
        assert(scan_stmt(modes, m.body[0]) == (None::<FindingView>, modes));
        assert(scan_block(modes, m.body, 1) is None);
        assert(scan_block(modes, m.body, 0) is None);
        assert(function_verdict(m) is None);
        assert(program_verdict(fs, 2) is None);
        assert(program_verdict(fs, 1) is None);
        assert(program_verdict(fs, 0) is None);
        assert(find_function(fs, "main"@, 2) is None);
        assert(find_function(fs, "main"@, 1) == Some(1int));
        assert(find_function(fs, "main"@, 0) == Some(1int));
        assert(find_function(fs, "f"@, 0) == Some(0int));
        assert(factorial_of(5) == 120) by {
            reveal_with_fuel(factorial_of, 6);
        }
        assert forall|depth: nat| depth >= 6 implies #[trigger] outcome(p, depth)
            == checked_outcome(expected) by {
            lemma_factorial_check(p, expected, depth);
        }
    }
    p
}

/// The entry function of the factorial program, run with five frames or
/// more to spare, ends as its check decides.
pub proof fn lemma_factorial_check(p: Program, expected: i64, depth: nat)
    requires
        depth >= 6,
        p.functions@.len() == 2,
        is_factorial(p.functions@[0]),
        find_function(p.functions@, "f"@, 0) == Some(0int),
        find_function(p.functions@, "main"@, 0) == Some(1int),
        program_verdict(p.functions@, 0) is None,
        factorial_of(5) == 120,
        is_checking_entry(p.functions@[1], expected),
    ensures
        outcome(p, depth) == checked_outcome(expected),
{
    let m = p.functions@[1];
    let s = m.body@[0];
    let e = s.kind->Check_0;
    let call = *e->Binary_1;
    let none = Seq::<(Seq<char>, CellView)>::empty();
    let inner = (depth - 1) as nat;
    law_factorial_call(p, 0, none, 0, call, 5, 20, inner);
    assert(eval(p, none, 0, *e->Binary_2, 20, inner) == Ok::<_, Failure>(
        (Val::Int(expected), none),
    ));
    assert(eval(p, none, 0, e, 20, inner) == Ok::<_, Failure>(
        (Val::Bool(expected == 120), none),
    ));
    if expected == 120 {
        assert(run_stmt(p, none, 0, s, inner) == Ok::<_, Failure>((FlowView::Next, none)));
        assert(run_block(p, none, 0, m.body, 1, inner) == Ok::<_, Failure>(
            (FlowView::Next, none),
        ));
        assert(run_block(p, none, 0, m.body, 0, inner) == Ok::<_, Failure>(
            (FlowView::Next, none),
        ));
        assert(invoke(p, m, none, 0, inner) is Ok);
        assert(execution(p, depth) is Ok);
    } else {
        let x = failure(FailureClass::AssertionFailure, 20);
        assert(run_stmt(p, none, 0, s, inner) == Err::<(FlowView, Stack), _>(x));
        assert(run_block(p, none, 0, m.body, 0, inner) == Err::<(FlowView, Stack), _>(x));
        assert(invoke(p, m, none, 0, inner) == Err::<(Val, Stack), _>(x));
        assert(execution(p, depth) == Err::<(), _>(x));
    }
}

} // verus!
