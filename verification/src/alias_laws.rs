//! What holds of the alias checker's rules for every tree.

use vstd::prelude::*;
use crate::ast::{Expr, Function, Mode, Place, Program, Stmt, StmtKind, mode_of_type};
use crate::alias::{
    assign_finding, function_verdict, let_mode, param_modes, program_verdict, resolve, scan_block,
    scan_stmt, DiagnosticClass, DiagnosticView, FindingView, Modes, Verdict,
};

verus! {

/// `s` assigns to a target rooted at `name`, with any field path.
pub open spec fn assigns_to(s: Stmt, name: Seq<char>) -> bool {
    match s.kind {
        StmtKind::Assign(place, _) => place.root@ == name,
        _ => false,
    }
}

/// `name` is the parameter at `k`, and no later parameter takes the name over.
pub open spec fn is_param(f: Function, k: int, name: Seq<char>) -> bool {
    &&& 0 <= k < f.params@.len()
    &&& f.params@[k].name@ == name
    &&& forall|j: int| k < j < f.params@.len() ==> f.params@[j].name@ != name
}

/// The table in front of `stmts[at]`, given that it is `modes` in front of
/// `stmts[from]`.
pub open spec fn modes_before(modes: Modes, stmts: Vec<Stmt>, from: int, at: int) -> Modes
    decreases at - from,
{
    if 0 <= from < at <= stmts.len() {
        modes_before(scan_stmt(modes, stmts[from]).1, stmts, from + 1, at)
    } else {
        modes
    }
}

/// No statement of `stmts[from..at]` has a finding.
pub open spec fn clean_before(modes: Modes, stmts: Vec<Stmt>, from: int, at: int) -> bool
    decreases at - from,
{
    if 0 <= from < at <= stmts.len() {
        scan_stmt(modes, stmts[from]).0 is None && clean_before(
            scan_stmt(modes, stmts[from]).1,
            stmts,
            from + 1,
            at,
        )
    } else {
        true
    }
}

/// The innermost binding wins: an entry that no later entry repeats is the
/// one that its name resolves to.
pub proof fn lemma_resolve_innermost(modes: Modes, k: int, name: Seq<char>)
    requires
        0 <= k < modes.len(),
        modes[k].0 == name,
        forall|j: int| k < j < modes.len() ==> modes[j].0 != name,
    ensures
        resolve(modes, name) == Some(modes[k].1),
    decreases modes.len(),
{
    if k < modes.len() - 1 {
        lemma_resolve_innermost(modes.drop_last(), k, name);
    }
}

/// A parameter resolves to the mode of its type.
pub proof fn lemma_param_resolves(f: Function, k: int, name: Seq<char>)
    requires
        is_param(f, k, name),
    ensures
        resolve(param_modes(f.params@), name) == Some(mode_of_type(f.params@[k].ty)),
{
    lemma_resolve_innermost(param_modes(f.params@), k, name);
}

/// An assignment whose root resolves to a read-only binding is a finding of
/// the class "writing to read-alias" on that binding, whatever fields follow
/// the root.
pub proof fn law_read_alias_write_is_finding(modes: Modes, place: Place, line: u32)
    requires
        resolve(modes, place.root@) == Some(Mode::ReadOnly),
    ensures
        assign_finding(modes, place, line) == Some(
            FindingView {
                class: DiagnosticClass::WritingToReadAlias,
                line,
                binding: place.root@,
            },
        ),
{
}

/// An assignment whose root resolves to a writable binding is no finding,
/// whatever fields follow the root.
pub proof fn law_writable_write_is_clean(modes: Modes, place: Place, line: u32)
    requires
        resolve(modes, place.root@) == Some(Mode::Mutable),
    ensures
        assign_finding(modes, place, line) is None,
{
}

/// The first statement with a finding decides the block.
pub proof fn lemma_first_finding(modes: Modes, stmts: Vec<Stmt>, from: int, at: int)
    requires
        0 <= from <= at < stmts.len(),
        clean_before(modes, stmts, from, at),
        scan_stmt(modes_before(modes, stmts, from, at), stmts[at]).0 is Some,
    ensures
        scan_block(modes, stmts, from) == scan_stmt(
            modes_before(modes, stmts, from, at),
            stmts[at],
        ).0,
    decreases at - from,
{
    if from < at {
        lemma_first_finding(scan_stmt(modes, stmts[from]).1, stmts, from + 1, at);
    }
}

/// A function is rejected for "writing to read-alias" at the first statement
/// of its body that has a finding, when that statement assigns through a
/// binding that is read-only there. The field path of the target is free.
pub proof fn law_read_alias_write_rejected(f: Function, at: int, place: Place, value: Expr)
    requires
        0 <= at < f.body.len(),
        f.body[at].kind == StmtKind::Assign(place, value),
        clean_before(param_modes(f.params@), f.body, 0, at),
        resolve(modes_before(param_modes(f.params@), f.body, 0, at), place.root@) == Some(
            Mode::ReadOnly,
        ),
    ensures
        function_verdict(f) == Some(
            DiagnosticView {
                class: DiagnosticClass::WritingToReadAlias,
                function: f.name@,
                line: f.body[at].line,
                binding: place.root@,
            },
        ),
{
    lemma_first_finding(param_modes(f.params@), f.body, 0, at);
}

/// A function that opens with an assignment through its read-only reference
/// parameter is rejected at that statement.
pub proof fn law_read_only_param_write_rejected(f: Function, k: int, place: Place, value: Expr)
    requires
        is_param(f, k, place.root@),
        mode_of_type(f.params@[k].ty) == Mode::ReadOnly,
        f.body.len() > 0,
        f.body[0].kind == StmtKind::Assign(place, value),
    ensures
        function_verdict(f) == Some(
            DiagnosticView {
                class: DiagnosticClass::WritingToReadAlias,
                function: f.name@,
                line: f.body[0].line,
                binding: place.root@,
            },
        ),
{
    lemma_param_resolves(f, k, place.root@);
    law_read_alias_write_rejected(f, 0, place, value);
}

/// A block made of assignments to one writable binding has no finding.
pub proof fn lemma_writable_block_clean(
    modes: Modes,
    stmts: Vec<Stmt>,
    from: int,
    name: Seq<char>,
)
    requires
        0 <= from <= stmts.len(),
        resolve(modes, name) == Some(Mode::Mutable),
        forall|i: int| from <= i < stmts.len() ==> assigns_to(#[trigger] stmts[i], name),
    ensures
        scan_block(modes, stmts, from) is None,
    decreases stmts.len() - from,
{
    if from < stmts.len() {
        assert(assigns_to(stmts[from], name));
        assert(scan_stmt(modes, stmts[from]) == (None::<FindingView>, modes));
        lemma_writable_block_clean(modes, stmts, from + 1, name);
    }
}

/// A function whose body only assigns through a parameter that is a mutable
/// reference or a plain value is accepted, whatever fields the targets name.
pub proof fn law_writable_param_write_accepted(f: Function, k: int, name: Seq<char>)
    requires
        is_param(f, k, name),
        mode_of_type(f.params@[k].ty) == Mode::Mutable,
        forall|i: int| 0 <= i < f.body.len() ==> assigns_to(#[trigger] f.body[i], name),
    ensures
        function_verdict(f) is None,
{
    lemma_param_resolves(f, k, name);
    lemma_writable_block_clean(param_modes(f.params@), f.body, 0, name);
}

/// A new local is writable unless it is a plain copy of a read-only binding,
/// whatever its name resolved to before.
pub proof fn law_local_shadows(modes: Modes, name: Seq<char>, init: Expr)
    ensures
        resolve(modes.push((name, let_mode(modes, init))), name) == Some(let_mode(modes, init)),
{
    let extended = modes.push((name, let_mode(modes, init)));
    assert(extended.last() == (name, let_mode(modes, init)));
}

/// Shadowing: a function that declares a local and then assigns to it is
/// accepted, even where a read-only parameter has the same name. The local
/// must not be a plain copy of a read-only binding, which stays read-only.
pub proof fn law_shadowing_local_write_accepted(
    f: Function,
    name: String,
    init: Expr,
    place: Place,
    value: Expr,
)
    requires
        f.body.len() == 2,
        f.body[0].kind == StmtKind::Let(name, init),
        f.body[1].kind == StmtKind::Assign(place, value),
        place.root@ == name@,
        let_mode(param_modes(f.params@), init) == Mode::Mutable,
    ensures
        function_verdict(f) is None,
{
    let modes = param_modes(f.params@);
    law_local_shadows(modes, name@, init);
    let inner = scan_stmt(modes, f.body[0]).1;
    assert(inner == modes.push((name@, let_mode(modes, init))));
    assert(assign_finding(inner, place, f.body[1].line) is None);
    assert(scan_stmt(inner, f.body[1]) == (None::<FindingView>, inner));
    assert(scan_block(inner, f.body, 2) is None);
    assert(scan_block(inner, f.body, 1) is None);
}

/// The verdict is a function of the tree alone: any two runs of the checker
/// on one program report the same thing.
pub proof fn law_verdict_repeatable(p: Program, first: Verdict, second: Verdict)
    requires
        first@ == program_verdict(p.functions@, 0),
        second@ == program_verdict(p.functions@, 0),
    ensures
        first@ == second@,
{
}

/// `s` holds, nested blocks included, an assignment whose root resolves to
/// `target` where the assignment stands: to a read-only binding, to a
/// writable one, or, for `None`, to nothing.
pub open spec fn stmt_writes(modes: Modes, s: Stmt, target: Option<Mode>) -> bool
    decreases s, 0int,
{
    match s.kind {
        StmtKind::Assign(place, _) => resolve(modes, place.root@) == target,
        StmtKind::If(_, yes, no) => block_writes(modes, yes, 0, target) || block_writes(
            modes,
            no,
            0,
            target,
        ),
        _ => false,
    }
}

/// Some statement of `stmts[from..]` holds such an assignment, each seen
/// under the bindings that are in scope where it stands.
pub open spec fn block_writes(modes: Modes, stmts: Vec<Stmt>, from: int, target: Option<Mode>) -> bool
    decreases stmts, stmts.len() - from,
{
    if 0 <= from < stmts.len() {
        stmt_writes(modes, stmts[from], target) || block_writes(
            scan_stmt(modes, stmts[from]).1,
            stmts,
            from + 1,
            target,
        )
    } else {
        false
    }
}

/// What a finding says of the statement: there is none exactly when no
/// assignment is rooted at a read-only or an unbound name, and its class
/// names a kind of assignment that the statement holds.
pub open spec fn finding_matches(found: Option<FindingView>, read_only: bool, unbound: bool) -> bool {
    match found {
        None => !read_only && !unbound,
        Some(x) => match x.class {
            DiagnosticClass::WritingToReadAlias => read_only,
            DiagnosticClass::UnknownBinding => unbound,
        },
    }
}

/// The finding of a statement matches the assignments it holds.
pub proof fn lemma_stmt_finding_matches(modes: Modes, s: Stmt)
    ensures
        finding_matches(
            scan_stmt(modes, s).0,
            stmt_writes(modes, s, Some(Mode::ReadOnly)),
            stmt_writes(modes, s, None),
        ),
    decreases s, 0int,
{
    match s.kind {
        StmtKind::If(_, yes, no) => {
            lemma_block_finding_matches(modes, yes, 0);
            lemma_block_finding_matches(modes, no, 0);
        },
        _ => {},
    }
}

/// The finding of a block matches the assignments it holds.
pub proof fn lemma_block_finding_matches(modes: Modes, stmts: Vec<Stmt>, from: int)
    ensures
        finding_matches(
            scan_block(modes, stmts, from),
            block_writes(modes, stmts, from, Some(Mode::ReadOnly)),
            block_writes(modes, stmts, from, None),
        ),
    decreases stmts, stmts.len() - from,
{
    if 0 <= from < stmts.len() {
        lemma_stmt_finding_matches(modes, stmts[from]);
        lemma_block_finding_matches(scan_stmt(modes, stmts[from]).1, stmts, from + 1);
    }
}

/// A function is accepted exactly when every assignment in its body, at any
/// depth of nesting and of field access, is rooted at a writable binding.
pub proof fn law_accepted_iff_all_writable(f: Function)
    ensures
        function_verdict(f) is None <==> !block_writes(
            param_modes(f.params@),
            f.body,
            0,
            Some(Mode::ReadOnly),
        ) && !block_writes(param_modes(f.params@), f.body, 0, None),
{
    lemma_block_finding_matches(param_modes(f.params@), f.body, 0);
}

/// A function that assigns through a read-only binding anywhere in its
/// body, at any depth of nesting and of field access, is rejected; where
/// every assignment is rooted at a bound name, the class is "writing to
/// read-alias".
pub proof fn law_read_alias_write_anywhere_rejected(f: Function)
    requires
        block_writes(param_modes(f.params@), f.body, 0, Some(Mode::ReadOnly)),
    ensures
        function_verdict(f) is Some,
        !block_writes(param_modes(f.params@), f.body, 0, None) ==> function_verdict(
            f,
        )->Some_0.class == DiagnosticClass::WritingToReadAlias,
{
    lemma_block_finding_matches(param_modes(f.params@), f.body, 0);
}

/// What the root of an assignment resolves to when a finding of this class
/// is made.
pub open spec fn class_target(class: DiagnosticClass) -> Option<Mode> {
    match class {
        DiagnosticClass::WritingToReadAlias => Some(Mode::ReadOnly),
        DiagnosticClass::UnknownBinding => None,
    }
}

/// `s` is, or holds in a nested block, an assignment on line `line` whose
/// root is `binding`, and `binding` resolves to `target` where the
/// assignment stands.
pub open spec fn stmt_has(
    modes: Modes,
    s: Stmt,
    target: Option<Mode>,
    line: u32,
    binding: Seq<char>,
) -> bool
    decreases s, 0int,
{
    match s.kind {
        StmtKind::Assign(place, _) => place.root@ == binding && s.line == line && resolve(
            modes,
            binding,
        ) == target,
        StmtKind::If(_, yes, no) => block_has(modes, yes, 0, target, line, binding) || block_has(
            modes,
            no,
            0,
            target,
            line,
            binding,
        ),
        _ => false,
    }
}

/// Some statement of `stmts[from..]` is or holds such an assignment, each
/// seen under the bindings that are in scope where it stands.
pub open spec fn block_has(
    modes: Modes,
    stmts: Vec<Stmt>,
    from: int,
    target: Option<Mode>,
    line: u32,
    binding: Seq<char>,
) -> bool
    decreases stmts, stmts.len() - from,
{
    if 0 <= from < stmts.len() {
        stmt_has(modes, stmts[from], target, line, binding) || block_has(
            scan_stmt(modes, stmts[from]).1,
            stmts,
            from + 1,
            target,
            line,
            binding,
        )
    } else {
        false
    }
}

/// A finding of a statement names an assignment that the statement holds.
pub proof fn lemma_stmt_finding_names_assignment(modes: Modes, s: Stmt)
    ensures
        scan_stmt(modes, s).0 matches Some(x) ==> stmt_has(
            modes,
            s,
            class_target(x.class),
            x.line,
            x.binding,
        ),
    decreases s, 0int,
{
    match s.kind {
        StmtKind::If(_, yes, no) => {
            lemma_block_finding_names_assignment(modes, yes, 0);
            lemma_block_finding_names_assignment(modes, no, 0);
        },
        _ => {},
    }
}

/// A finding of a block names an assignment that the block holds.
pub proof fn lemma_block_finding_names_assignment(modes: Modes, stmts: Vec<Stmt>, from: int)
    ensures
        scan_block(modes, stmts, from) matches Some(x) ==> block_has(
            modes,
            stmts,
            from,
            class_target(x.class),
            x.line,
            x.binding,
        ),
    decreases stmts, stmts.len() - from,
{
    if 0 <= from < stmts.len() {
        lemma_stmt_finding_names_assignment(modes, stmts[from]);
        lemma_block_finding_names_assignment(scan_stmt(modes, stmts[from]).1, stmts, from + 1);
    }
}

/// A rejection names the function, and the line and the root binding of an
/// assignment in its body, at any depth of nesting. For the class "writing
/// to read-alias" that binding is read-only where the assignment stands; for
/// "unknown binding" it resolves to nothing there.
pub proof fn law_rejection_names_the_assignment(f: Function)
    ensures
        function_verdict(f) matches Some(d) ==> d.function == f.name@ && block_has(
            param_modes(f.params@),
            f.body,
            0,
            class_target(d.class),
            d.line,
            d.binding,
        ),
{
    lemma_block_finding_names_assignment(param_modes(f.params@), f.body, 0);
}

/// The table in front of the statement after `stmts[at]` is what `stmts[at]`
/// leaves.
pub proof fn lemma_modes_before_next(modes: Modes, stmts: Vec<Stmt>, from: int, at: int)
    requires
        0 <= from <= at < stmts.len(),
    ensures
        modes_before(modes, stmts, from, at + 1) == scan_stmt(
            modes_before(modes, stmts, from, at),
            stmts[at],
        ).1,
    decreases at - from,
{
    if from < at {
        lemma_modes_before_next(scan_stmt(modes, stmts[from]).1, stmts, from + 1, at);
    } else {
        assert(modes_before(scan_stmt(modes, stmts[from]).1, stmts, from + 1, at + 1)
            == scan_stmt(modes, stmts[from]).1);
    }
}

/// `s` makes no new binding called `name`.
pub open spec fn keeps_binding(s: Stmt, name: Seq<char>) -> bool {
    match s.kind {
        StmtKind::Let(other, _) => other@ != name,
        _ => true,
    }
}

/// What a statement that makes no new binding called `name` leaves, resolves
/// `name` as before.
pub proof fn lemma_resolve_kept(modes: Modes, s: Stmt, name: Seq<char>)
    requires
        keeps_binding(s, name),
    ensures
        resolve(scan_stmt(modes, s).1, name) == resolve(modes, name),
{
    match s.kind {
        StmtKind::Let(other, init) => {
            let next = modes.push((other@, let_mode(modes, init)));
            assert(next.drop_last() =~= modes);
        },
        _ => {},
    }
}

/// A local stays writable up to any later statement of its block, as long
/// as no statement in between binds its name anew.
pub proof fn lemma_local_stays_writable(
    modes: Modes,
    stmts: Vec<Stmt>,
    made: int,
    at: int,
    name: String,
    init: Expr,
)
    requires
        0 <= made < at <= stmts.len(),
        stmts[made].kind == StmtKind::Let(name, init),
        let_mode(modes_before(modes, stmts, 0, made), init) == Mode::Mutable,
        forall|j: int| made < j < at ==> keeps_binding(#[trigger] stmts[j], name@),
    ensures
        resolve(modes_before(modes, stmts, 0, at), name@) == Some(Mode::Mutable),
    decreases at - made,
{
    lemma_modes_before_next(modes, stmts, 0, at - 1);
    if at - 1 == made {
        law_local_shadows(modes_before(modes, stmts, 0, made), name@, init);
    } else {
        lemma_local_stays_writable(modes, stmts, made, at - 1, name, init);
        assert(keeps_binding(stmts[at - 1], name@));
        lemma_resolve_kept(modes_before(modes, stmts, 0, at - 1), stmts[at - 1], name@);
    }
}

/// A block whose statements from `from` on have no finding, each under the
/// table in front of it, has no finding.
pub proof fn lemma_clean_block(modes: Modes, stmts: Vec<Stmt>, from: int)
    requires
        0 <= from <= stmts.len(),
        clean_before(modes, stmts, from, stmts.len() as int),
    ensures
        scan_block(modes, stmts, from) is None,
    decreases stmts.len() - from,
{
    if from < stmts.len() {
        lemma_clean_block(scan_stmt(modes, stmts[from]).1, stmts, from + 1);
    }
}

/// Shadowing, in any body: an assignment to a local declared earlier in the
/// body is no finding, whatever the name resolved to before the
/// declaration, a read-only parameter included. The local must not be a
/// plain copy of a read-only binding, and no statement between the two may
/// bind the name anew.
pub proof fn law_shadowing_local_write_is_clean(
    f: Function,
    made: int,
    at: int,
    name: String,
    init: Expr,
    place: Place,
    value: Expr,
)
    requires
        0 <= made < at < f.body.len(),
        f.body[made].kind == StmtKind::Let(name, init),
        let_mode(modes_before(param_modes(f.params@), f.body, 0, made), init) == Mode::Mutable,
        forall|j: int| made < j < at ==> keeps_binding(#[trigger] f.body[j], name@),
        f.body[at].kind == StmtKind::Assign(place, value),
        place.root@ == name@,
    ensures
        scan_stmt(modes_before(param_modes(f.params@), f.body, 0, at), f.body[at]).0 is None,
{
    lemma_local_stays_writable(param_modes(f.params@), f.body, made, at, name, init);
}

/// A function whose statements have no finding, each under the bindings in
/// scope in front of it, is accepted. With the law above: a body that
/// shadows a read-only parameter and assigns to the local is accepted where
/// its other statements are.
pub proof fn law_clean_body_accepted(f: Function)
    requires
        clean_before(param_modes(f.params@), f.body, 0, f.body.len() as int),
    ensures
        function_verdict(f) is None,
{
    lemma_clean_block(param_modes(f.params@), f.body, 0);
}

/// Statements without a finding before, at and after `at` make a block
/// without a finding from `from` to its end.
pub proof fn lemma_clean_around(modes: Modes, stmts: Vec<Stmt>, from: int, at: int)
    requires
        0 <= from <= at < stmts.len(),
        clean_before(modes, stmts, from, at),
        scan_stmt(modes_before(modes, stmts, from, at), stmts[at]).0 is None,
        clean_before(
            scan_stmt(modes_before(modes, stmts, from, at), stmts[at]).1,
            stmts,
            at + 1,
            stmts.len() as int,
        ),
    ensures
        clean_before(modes, stmts, from, stmts.len() as int),
    decreases at - from,
{
    if from < at {
        lemma_clean_around(scan_stmt(modes, stmts[from]).1, stmts, from + 1, at);
    }
}

/// Shadowing, for a whole function: a body that declares a local, of any
/// name, and later assigns to it is accepted where its other statements have
/// no finding, even where a read-only parameter has the name. The local must
/// not be a plain copy of a read-only binding, and no statement between the
/// two may bind the name anew.
pub proof fn law_shadowing_body_accepted(
    f: Function,
    made: int,
    at: int,
    name: String,
    init: Expr,
    place: Place,
    value: Expr,
)
    requires
        0 <= made < at < f.body.len(),
        f.body[made].kind == StmtKind::Let(name, init),
        let_mode(modes_before(param_modes(f.params@), f.body, 0, made), init) == Mode::Mutable,
        forall|j: int| made < j < at ==> keeps_binding(#[trigger] f.body[j], name@),
        f.body[at].kind == StmtKind::Assign(place, value),
        place.root@ == name@,
        clean_before(param_modes(f.params@), f.body, 0, at),
        clean_before(
            scan_stmt(modes_before(param_modes(f.params@), f.body, 0, at), f.body[at]).1,
            f.body,
            at + 1,
            f.body.len() as int,
        ),
    ensures
        function_verdict(f) is None,
{
    law_shadowing_local_write_is_clean(f, made, at, name, init, place, value);
    lemma_clean_around(param_modes(f.params@), f.body, 0, at);
    law_clean_body_accepted(f);
}

} // verus!
