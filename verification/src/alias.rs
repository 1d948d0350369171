//! The alias checker: one linear pass per function body that rejects every
//! assignment whose target is rooted at a read-only binding.

use vstd::prelude::*;
use crate::ast::{Expr, Function, Mode, Param, Place, Program, Stmt, StmtKind, mode_of_type, type_mode};

verus! {

/// Why a function was rejected.
#[derive(Clone, Copy, Debug, PartialEq, Eq, Structural)]
pub enum DiagnosticClass {
    /// An assignment goes through a read-only reference.
    WritingToReadAlias,
    /// The root of an assignment target names no binding in scope.
    UnknownBinding,
}

/// What the checker reports about a rejected function.
#[derive(Debug, PartialEq, Eq)]
pub struct Diagnostic {
    pub class: DiagnosticClass,
    pub function: String,
    pub line: u32,
    pub binding: String,
}

/// The result of checking a function or a program.
#[derive(Debug, PartialEq, Eq)]
pub enum Verdict {
    Accept,
    Reject(Diagnostic),
}

impl DiagnosticClass {
    /// The wording of the class in diagnostics.
    pub open spec fn text(self) -> Seq<char> {
        match self {
            DiagnosticClass::WritingToReadAlias => "writing to read-alias"@,
            DiagnosticClass::UnknownBinding => "unknown binding"@,
        }
    }

    /// The wording as an owned string.
    pub fn message(&self) -> (r: String)
        ensures
            r@ == self.text(),
    {
        match self {
            DiagnosticClass::WritingToReadAlias => "writing to read-alias".to_owned(),
            DiagnosticClass::UnknownBinding => "unknown binding".to_owned(),
        }
    }
}

/// The offending assignment inside one function: its class, line and root binding.
#[derive(Debug)]
pub struct Finding {
    pub class: DiagnosticClass,
    pub line: u32,
    pub binding: String,
}

/// The content of a `Finding`.
pub ghost struct FindingView {
    pub class: DiagnosticClass,
    pub line: u32,
    pub binding: Seq<char>,
}

/// The content of a `Diagnostic`.
pub ghost struct DiagnosticView {
    pub class: DiagnosticClass,
    pub function: Seq<char>,
    pub line: u32,
    pub binding: Seq<char>,
}

impl View for Finding {
    type V = FindingView;

    open spec fn view(&self) -> FindingView {
        FindingView { class: self.class, line: self.line, binding: self.binding@ }
    }
}

impl View for Diagnostic {
    type V = DiagnosticView;

    open spec fn view(&self) -> DiagnosticView {
        DiagnosticView {
            class: self.class,
            function: self.function@,
            line: self.line,
            binding: self.binding@,
        }
    }
}

impl View for Verdict {
    type V = Option<DiagnosticView>;

    /// `None` stands for Accept.
    open spec fn view(&self) -> Option<DiagnosticView> {
        match self {
            Verdict::Accept => None,
            Verdict::Reject(d) => Some(d@),
        }
    }
}

/// The content of an optional finding.
pub open spec fn finding_view(f: Option<Finding>) -> Option<FindingView> {
    match f {
        None => None,
        Some(x) => Some(x@),
    }
}

/// One entry of the binding table.
#[derive(Debug)]
pub struct Binding {
    pub name: String,
    pub mode: Mode,
}

/// The binding table as the checker's rules see it: names with their modes,
/// innermost binding last.
pub type Modes = Seq<(Seq<char>, Mode)>;

/// The names and modes that a table holds, in order.
pub open spec fn modes_of(table: Seq<Binding>) -> Modes {
    Seq::new(table.len(), |i: int| (table[i].name@, table[i].mode))
}

/// The mode of the innermost binding called `name`, if there is one.
pub open spec fn resolve(modes: Modes, name: Seq<char>) -> Option<Mode>
    decreases modes.len(),
{
    if modes.len() == 0 {
        None
    } else if modes.last().0 == name {
        Some(modes.last().1)
    } else {
        resolve(modes.drop_last(), name)
    }
}

/// The table a function body starts with: one entry per parameter, in order.
pub open spec fn param_modes(params: Seq<Param>) -> Modes {
    Seq::new(params.len(), |i: int| (params[i].name@, mode_of_type(params[i].ty)))
}

/// The mode of a new local initialised with `init`: a plain copy of a
/// read-only binding stays read-only, anything else is writable.
pub open spec fn let_mode(modes: Modes, init: Expr) -> Mode {
    match init {
        Expr::Var(v) => if resolve(modes, v@) == Some(Mode::ReadOnly) {
            Mode::ReadOnly
        } else {
            Mode::Mutable
        },
        _ => Mode::Mutable,
    }
}

/// The verdict on one assignment at `line`. Only the root of the target
/// counts; the field path plays no part.
pub open spec fn assign_finding(modes: Modes, place: Place, line: u32) -> Option<FindingView> {
    match resolve(modes, place.root@) {
        Some(Mode::Mutable) => None,
        Some(Mode::ReadOnly) => Some(
            FindingView { class: DiagnosticClass::WritingToReadAlias, line, binding: place.root@ },
        ),
        None => Some(
            FindingView { class: DiagnosticClass::UnknownBinding, line, binding: place.root@ },
        ),
    }
}

/// The finding of a statement, and the table that the statements after it see.
pub open spec fn scan_stmt(modes: Modes, s: Stmt) -> (Option<FindingView>, Modes)
    decreases s, 0int,
{
    match s.kind {
        StmtKind::Let(name, init) => (None, modes.push((name@, let_mode(modes, init)))),
        StmtKind::Assign(place, _) => (assign_finding(modes, place, s.line), modes),
        StmtKind::If(_, yes, no) => {
            let first = scan_block(modes, yes, 0);
            if first is Some {
                (first, modes)
            } else {
                (scan_block(modes, no, 0), modes)
            }
        },
        _ => (None, modes),
    }
}

/// The first finding among `stmts[from..]`, in order; bindings made inside the
/// block end with it.
pub open spec fn scan_block(modes: Modes, stmts: Vec<Stmt>, from: int) -> Option<FindingView>
    decreases stmts, stmts.len() - from,
{
    if 0 <= from < stmts.len() {
        let (found, next) = scan_stmt(modes, stmts[from]);
        if found is Some {
            found
        } else {
            scan_block(next, stmts, from + 1)
        }
    } else {
        None
    }
}

/// The verdict on a function: Accept (`None`), or the first finding of its
/// body under the table built from its parameters.
pub open spec fn function_verdict(f: Function) -> Option<DiagnosticView> {
    match scan_block(param_modes(f.params@), f.body, 0) {
        None => None,
        Some(x) => Some(
            DiagnosticView { class: x.class, function: f.name@, line: x.line, binding: x.binding },
        ),
    }
}

/// The verdict on a program: that of the first rejected function among
/// `functions[from..]`, in declaration order.
pub open spec fn program_verdict(functions: Seq<Function>, from: int) -> Option<DiagnosticView>
    decreases functions.len() - from,
{
    if 0 <= from < functions.len() {
        let v = function_verdict(functions[from]);
        if v is Some {
            v
        } else {
            program_verdict(functions, from + 1)
        }
    } else {
        None
    }
}

/// Looks `name` up in the table, innermost binding first.
pub fn lookup(table: &Vec<Binding>, name: &String) -> (r: Option<Mode>)
    ensures
        r == resolve(modes_of(table@), name@),
{
    let ghost all = modes_of(table@);
    let mut i: usize = table.len();
    assert(all.take(i as int) =~= all);
    while i > 0
        invariant
            i <= table.len(),
            all == modes_of(table@),
            resolve(all, name@) == resolve(all.take(i as int), name@),
        decreases i,
    {
        i -= 1;
        assert(all.take(i + 1).drop_last() =~= all.take(i as int));
        assert(all.take(i + 1).last() == all[i as int]);
        if table[i].name == *name {
            return Some(table[i].mode);
        }
    }
    None
}

/// The table for the body of a function with these parameters.
pub fn table_of_params(params: &Vec<Param>) -> (table: Vec<Binding>)
    ensures
        modes_of(table@) == param_modes(params@),
{
    let mut table: Vec<Binding> = Vec::new();
    let mut i: usize = 0;
    while i < params.len()
        invariant
            i <= params.len(),
            table@.len() == i,
            forall|k: int|
                0 <= k < i ==> table@[k].name@ == params@[k].name@ && table@[k].mode
                    == mode_of_type(params@[k].ty),
        decreases params.len() - i,
    {
        table.push(Binding { name: params[i].name.clone(), mode: type_mode(&params[i].ty) });
        i += 1;
    }
    assert(modes_of(table@) =~= param_modes(params@));
    table
}

fn mode_for_let(table: &Vec<Binding>, init: &Expr) -> (m: Mode)
    ensures
        m == let_mode(modes_of(table@), *init),
{
    match init {
        Expr::Var(v) => {
            match lookup(table, v) {
                Some(Mode::ReadOnly) => Mode::ReadOnly,
                _ => Mode::Mutable,
            }
        },
        _ => Mode::Mutable,
    }
}

fn check_assign(table: &Vec<Binding>, place: &Place, line: u32) -> (r: Option<Finding>)
    ensures
        finding_view(r) == assign_finding(modes_of(table@), *place, line),
{
    match lookup(table, &place.root) {
        Some(Mode::Mutable) => None,
        Some(Mode::ReadOnly) => Some(
            Finding {
                class: DiagnosticClass::WritingToReadAlias,
                line,
                binding: place.root.clone(),
            },
        ),
        None => Some(
            Finding { class: DiagnosticClass::UnknownBinding, line, binding: place.root.clone() },
        ),
    }
}

/// Checks one statement. A `Let` extends the table; nothing else changes it.
pub fn check_stmt(table: &mut Vec<Binding>, s: &Stmt) -> (r: Option<Finding>)
    ensures
        (finding_view(r), modes_of(final(table)@)) == scan_stmt(modes_of(old(table)@), *s),
        final(table)@.len() >= old(table)@.len(),
        final(table)@.take(old(table)@.len() as int) == old(table)@,
    decreases s, 0int,
{
    assert(table@.take(table@.len() as int) =~= table@);
    match &s.kind {
        StmtKind::Let(name, init) => {
            let mode = mode_for_let(table, init);
            table.push(Binding { name: name.clone(), mode });
            assert(modes_of(table@) =~= modes_of(old(table)@).push((name@, mode)));
            assert(table@.take(old(table)@.len() as int) =~= old(table)@);
            None
        },
        StmtKind::Assign(place, _) => check_assign(table, place, s.line),
        StmtKind::If(_, yes, no) => {
            let first = check_block(table, yes);
            if first.is_some() {
                first
            } else {
                check_block(table, no)
            }
        },
        _ => None,
    }
}

/// Checks the statements of a block in order and stops at the first finding.
/// The table is handed back as it was: a block's bindings end with it.
pub fn check_block(table: &mut Vec<Binding>, stmts: &Vec<Stmt>) -> (r: Option<Finding>)
    ensures
        finding_view(r) == scan_block(modes_of(old(table)@), *stmts, 0),
        final(table)@ == old(table)@,
    decreases stmts, stmts.len() + 1,
{
    let depth: usize = table.len();
    let mut i: usize = 0;
    assert(table@.take(depth as int) =~= table@);
    while i < stmts.len()
        invariant
            i <= stmts.len(),
            depth == old(table)@.len(),
            table@.len() >= depth,
            table@.take(depth as int) == old(table)@,
            scan_block(modes_of(old(table)@), *stmts, 0) == scan_block(
                modes_of(table@),
                *stmts,
                i as int,
            ),
        decreases stmts.len() - i,
    {
        let ghost before = table@;
        let found = check_stmt(table, &stmts[i]);
        assert(table@.take(depth as int) =~= before.take(depth as int));
        if found.is_some() {
            table.truncate(depth);
            assert(table@ =~= old(table)@);
            return found;
        }
        i += 1;
    }
    table.truncate(depth);
    assert(table@ =~= old(table)@);
    None
}

/// Checks one function against the table built from its parameters.
pub fn check_function(f: &Function) -> (v: Verdict)
    ensures
        v@ == function_verdict(*f),
{
    let mut table = table_of_params(&f.params);
    match check_block(&mut table, &f.body) {
        None => Verdict::Accept,
        Some(x) => Verdict::Reject(
            Diagnostic {
                class: x.class,
                function: f.name.clone(),
                line: x.line,
                binding: x.binding,
            },
        ),
    }
}

/// Checks every function in declaration order and reports the first rejection.
pub fn check_program(p: &Program) -> (v: Verdict)
    ensures
        v@ == program_verdict(p.functions@, 0),
{
    let mut i: usize = 0;
    while i < p.functions.len()
        invariant
            i <= p.functions.len(),
            program_verdict(p.functions@, 0) == program_verdict(p.functions@, i as int),
        decreases p.functions.len() - i,
    {
        let v = check_function(&p.functions[i]);
        match v {
            Verdict::Reject(d) => {
                return Verdict::Reject(d);
            },
            Verdict::Accept => {},
        }
        i += 1;
    }
    Verdict::Accept
}

} // verus!
