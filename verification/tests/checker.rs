use alias_lang::alias::{
    check_block, check_function, check_program, check_stmt, lookup, table_of_params, Binding,
    Diagnostic, DiagnosticClass, Verdict,
};
use alias_lang::ast::{
    type_mode, Expr, FieldInit, FieldType, Function, Mode, Param, Place, Program, Stmt, StmtKind,
    Type,
};
use alias_lang::driver::{run, Outcome};
use alias_lang::samples::{f, point};

fn s(text: &str) -> String {
    text.to_string()
}

fn place(root: &str, path: &[&str]) -> Place {
    Place { root: s(root), path: path.iter().map(|x| s(x)).collect() }
}

fn assign(line: u32, root: &str, path: &[&str], value: i64) -> Stmt {
    Stmt { line, kind: StmtKind::Assign(place(root, path), Expr::Int(value)) }
}

fn let_stmt(line: u32, name: &str, init: Expr) -> Stmt {
    Stmt { line, kind: StmtKind::Let(s(name), init) }
}

fn reference(mode: Mode) -> Type {
    Type::Reference(Box::new(point()), mode)
}

fn function(name: &str, params: Vec<(&str, Type)>, body: Vec<Stmt>) -> Function {
    Function {
        name: s(name),
        params: params.into_iter().map(|(n, ty)| Param { name: s(n), ty }).collect(),
        ret: None,
        body,
    }
}

fn reject(class: DiagnosticClass, function: &str, line: u32, binding: &str) -> Verdict {
    Verdict::Reject(Diagnostic { class, function: s(function), line, binding: s(binding) })
}

fn point_literal() -> Expr {
    Expr::Record(vec![
        FieldInit { name: s("x"), value: Expr::Int(10) },
        FieldInit { name: s("y"), value: Expr::Int(11) },
        FieldInit { name: s("z"), value: Expr::Int(12) },
    ])
}

fn read_alias_program() -> Program {
    let main = function(
        "main",
        vec![],
        vec![
            let_stmt(12, "x", point_literal()),
            Stmt { line: 13, kind: StmtKind::Eval(Expr::Call(s("f"), vec![Expr::Var(s("x"))])) },
        ],
    );
    Program { name: s("root"), functions: vec![f(), main] }
}

#[test]
fn sample_function_has_the_documented_shape() {
    let d = f();
    assert_eq!(d.name, "f");
    assert_eq!(d.params.len(), 1);
    assert_eq!(d.params[0].name, "p");
    assert!(matches!(&d.params[0].ty, Type::Reference(inner, Mode::ReadOnly)
        if matches!(&**inner, Type::Record(fields) if fields.len() == 3)));
    assert!(d.ret.is_none());
    assert_eq!(d.body.len(), 1);
    assert_eq!(d.body[0].line, 8);
    match &d.body[0].kind {
        StmtKind::Assign(target, Expr::Int(13)) => {
            assert_eq!(target.root, "p");
            assert_eq!(target.path, vec![s("x")]);
        }
        other => panic!("unexpected statement {:?}", other),
    }
}

#[test]
fn point_has_three_integer_fields() {
    match point() {
        Type::Record(fields) => {
            let names: Vec<&str> = fields.iter().map(|x: &FieldType| x.name.as_str()).collect();
            assert_eq!(names, vec!["x", "y", "z"]);
            assert!(fields.iter().all(|x| matches!(x.ty, Type::Integer)));
        }
        other => panic!("unexpected type {:?}", other),
    }
}

#[test]
fn writing_through_read_alias_is_rejected() {
    assert_eq!(check_function(&f()), reject(DiagnosticClass::WritingToReadAlias, "f", 8, "p"));
}

#[test]
fn read_alias_program_fails_to_compile_and_is_not_run() {
    let p = read_alias_program();
    let expected = reject(DiagnosticClass::WritingToReadAlias, "f", 8, "p");
    assert_eq!(check_program(&p), expected);
    match run(&p, 16) {
        Outcome::CompileFailure(d) => assert_eq!(Verdict::Reject(d), expected),
        other => panic!("unexpected outcome {:?}", other),
    }
}

#[test]
fn field_depth_does_not_matter_for_read_only_root() {
    for path in [&[][..], &["x"][..], &["x", "y"][..], &["a", "b", "c", "d"][..]] {
        let g = function("g", vec![("p", reference(Mode::ReadOnly))], vec![assign(3, "p", path, 1)]);
        assert_eq!(check_function(&g), reject(DiagnosticClass::WritingToReadAlias, "g", 3, "p"));
    }
}

#[test]
fn mutable_reference_parameter_write_is_accepted() {
    let g = function(
        "g",
        vec![("p", reference(Mode::Mutable))],
        vec![assign(3, "p", &["x"], 13), assign(4, "p", &["y", "z"], 1)],
    );
    assert_eq!(check_function(&g), Verdict::Accept);
}

#[test]
fn value_parameter_write_is_accepted() {
    let g = function("g", vec![("p", point())], vec![assign(3, "p", &["x"], 13)]);
    assert_eq!(check_function(&g), Verdict::Accept);
    let h = function("h", vec![("n", Type::Integer)], vec![assign(3, "n", &[], 13)]);
    assert_eq!(check_function(&h), Verdict::Accept);
}

#[test]
fn shadowing_local_is_writable() {
    let g = function(
        "g",
        vec![("p", reference(Mode::ReadOnly))],
        vec![let_stmt(2, "p", point_literal()), assign(3, "p", &["x"], 13)],
    );
    assert_eq!(check_function(&g), Verdict::Accept);
}

#[test]
fn copy_of_read_only_binding_stays_read_only() {
    let g = function(
        "g",
        vec![("p", reference(Mode::ReadOnly))],
        vec![let_stmt(2, "q", Expr::Var(s("p"))), assign(3, "q", &["x"], 13)],
    );
    assert_eq!(check_function(&g), reject(DiagnosticClass::WritingToReadAlias, "g", 3, "q"));
    let h = function(
        "h",
        vec![("p", reference(Mode::ReadOnly))],
        vec![let_stmt(2, "p", Expr::Var(s("p"))), assign(3, "p", &["x"], 13)],
    );
    assert_eq!(check_function(&h), reject(DiagnosticClass::WritingToReadAlias, "h", 3, "p"));
    let k = function(
        "k",
        vec![("p", reference(Mode::ReadOnly))],
        vec![
            let_stmt(2, "q", Expr::Field(Box::new(Expr::Var(s("p"))), s("x"))),
            assign(3, "q", &[], 13),
        ],
    );
    assert_eq!(check_function(&k), Verdict::Accept);
}

#[test]
fn later_parameter_of_the_same_name_wins() {
    let g = function(
        "g",
        vec![("p", reference(Mode::ReadOnly)), ("p", reference(Mode::Mutable))],
        vec![assign(3, "p", &["x"], 13)],
    );
    assert_eq!(check_function(&g), Verdict::Accept);
    let h = function(
        "h",
        vec![("p", reference(Mode::Mutable)), ("p", reference(Mode::ReadOnly))],
        vec![assign(3, "p", &["x"], 13)],
    );
    assert_eq!(check_function(&h), reject(DiagnosticClass::WritingToReadAlias, "h", 3, "p"));
}

#[test]
fn unknown_binding_is_a_distinct_rejection() {
    let g = function("g", vec![("p", reference(Mode::ReadOnly))], vec![assign(5, "r", &["x"], 1)]);
    assert_eq!(check_function(&g), reject(DiagnosticClass::UnknownBinding, "g", 5, "r"));
}

#[test]
fn assignment_inside_a_branch_is_checked() {
    let in_else = Stmt {
        line: 2,
        kind: StmtKind::If(
            Expr::Int(1),
            vec![assign(3, "w", &[], 1)],
            vec![Stmt {
                line: 4,
                kind: StmtKind::If(Expr::Int(1), vec![], vec![assign(5, "p", &["x"], 1)]),
            }],
        ),
    };
    let g = function(
        "g",
        vec![("p", reference(Mode::ReadOnly)), ("w", Type::Integer)],
        vec![in_else],
    );
    assert_eq!(check_function(&g), reject(DiagnosticClass::WritingToReadAlias, "g", 5, "p"));
}

#[test]
fn binding_made_in_a_branch_ends_with_it() {
    let branch = Stmt {
        line: 2,
        kind: StmtKind::If(
            Expr::Int(1),
            vec![let_stmt(3, "p", Expr::Int(0)), assign(4, "p", &[], 1)],
            vec![],
        ),
    };
    let g = function(
        "g",
        vec![("p", reference(Mode::ReadOnly))],
        vec![branch, assign(6, "p", &["x"], 1)],
    );
    assert_eq!(check_function(&g), reject(DiagnosticClass::WritingToReadAlias, "g", 6, "p"));
}

#[test]
fn first_finding_in_statement_order_is_reported() {
    let g = function(
        "g",
        vec![("p", reference(Mode::ReadOnly))],
        vec![
            Stmt { line: 1, kind: StmtKind::Check(Expr::Int(1)) },
            assign(2, "nobody", &[], 1),
            assign(3, "p", &["x"], 1),
        ],
    );
    assert_eq!(check_function(&g), reject(DiagnosticClass::UnknownBinding, "g", 2, "nobody"));
}

#[test]
fn first_rejected_function_in_declaration_order_is_reported() {
    let ok = function("ok", vec![("n", Type::Integer)], vec![assign(1, "n", &[], 2)]);
    let bad1 = function("bad1", vec![("p", reference(Mode::ReadOnly))], vec![assign(7, "p", &[], 2)]);
    let bad2 = function("bad2", vec![], vec![assign(9, "q", &[], 2)]);
    let p = Program { name: s("root"), functions: vec![ok, bad1, bad2] };
    assert_eq!(check_program(&p), reject(DiagnosticClass::WritingToReadAlias, "bad1", 7, "p"));
    let empty = Program { name: s("root"), functions: vec![] };
    assert_eq!(check_program(&empty), Verdict::Accept);
}

#[test]
fn checking_twice_gives_the_same_verdict_and_leaves_the_tree_alone() {
    let p = read_alias_program();
    let before = format!("{:?}", p);
    let first = check_program(&p);
    let second = check_program(&p);
    assert_eq!(first, second);
    assert_eq!(format!("{:?}", p), before);
    let g = function("g", vec![("p", reference(Mode::Mutable))], vec![assign(3, "p", &["x"], 13)]);
    assert_eq!(check_function(&g), check_function(&g));
    assert_eq!(check_function(&g), Verdict::Accept);
}

#[test]
fn table_lookup_finds_the_innermost_binding() {
    let table = vec![
        Binding { name: s("a"), mode: Mode::ReadOnly },
        Binding { name: s("b"), mode: Mode::Mutable },
        Binding { name: s("a"), mode: Mode::Mutable },
    ];
    assert_eq!(lookup(&table, &s("a")), Some(Mode::Mutable));
    assert_eq!(lookup(&table, &s("b")), Some(Mode::Mutable));
    assert_eq!(lookup(&table, &s("c")), None);
    let outer = vec![Binding { name: s("a"), mode: Mode::ReadOnly }];
    assert_eq!(lookup(&outer, &s("a")), Some(Mode::ReadOnly));
    assert_eq!(lookup(&Vec::new(), &s("a")), None);
}

#[test]
fn table_of_params_records_one_mode_per_parameter() {
    let params = vec![
        Param { name: s("a"), ty: reference(Mode::ReadOnly) },
        Param { name: s("b"), ty: reference(Mode::Mutable) },
        Param { name: s("c"), ty: Type::Integer },
        Param { name: s("d"), ty: point() },
    ];
    let table = table_of_params(&params);
    let got: Vec<(String, Mode)> = table.into_iter().map(|b| (b.name, b.mode)).collect();
    assert_eq!(
        got,
        vec![
            (s("a"), Mode::ReadOnly),
            (s("b"), Mode::Mutable),
            (s("c"), Mode::Mutable),
            (s("d"), Mode::Mutable)
        ]
    );
}

#[test]
fn type_mode_is_read_only_only_for_read_only_references() {
    assert_eq!(type_mode(&Type::Integer), Mode::Mutable);
    assert_eq!(type_mode(&point()), Mode::Mutable);
    assert_eq!(type_mode(&reference(Mode::Mutable)), Mode::Mutable);
    assert_eq!(type_mode(&reference(Mode::ReadOnly)), Mode::ReadOnly);
}

#[test]
fn check_stmt_extends_the_table_only_for_let() {
    let mut table = vec![Binding { name: s("p"), mode: Mode::ReadOnly }];
    assert!(check_stmt(&mut table, &Stmt { line: 1, kind: StmtKind::Return(Expr::Int(1)) }).is_none());
    assert_eq!(table.len(), 1);
    assert!(check_stmt(&mut table, &let_stmt(2, "q", Expr::Int(1))).is_none());
    assert_eq!(table.len(), 2);
    assert_eq!(table[1].name, "q");
    assert_eq!(table[1].mode, Mode::Mutable);
    let found = check_stmt(&mut table, &assign(3, "p", &["x"], 1)).expect("a finding");
    assert_eq!(found.class, DiagnosticClass::WritingToReadAlias);
    assert_eq!(found.line, 3);
    assert_eq!(found.binding, "p");
    assert_eq!(table.len(), 2);
}

#[test]
fn check_block_restores_the_table() {
    let mut table = vec![Binding { name: s("p"), mode: Mode::ReadOnly }];
    let stmts = vec![let_stmt(1, "a", Expr::Int(1)), let_stmt(2, "b", Expr::Int(1)), assign(3, "p", &[], 1)];
    let found = check_block(&mut table, &stmts).expect("a finding");
    assert_eq!(found.line, 3);
    assert_eq!(table.len(), 1);
    let clean = vec![let_stmt(1, "a", Expr::Int(1)), assign(2, "a", &[], 1)];
    assert!(check_block(&mut table, &clean).is_none());
    assert_eq!(table.len(), 1);
}

#[test]
fn diagnostic_classes_have_their_wording() {
    assert_eq!(DiagnosticClass::WritingToReadAlias.message(), "writing to read-alias");
    assert_eq!(DiagnosticClass::UnknownBinding.message(), "unknown binding");
    match check_function(&f()) {
        Verdict::Reject(d) => assert_eq!(d.class.message(), "writing to read-alias"),
        other => panic!("unexpected verdict {:?}", other),
    }
}

#[test]
fn shadowing_local_is_writable_anywhere_in_a_longer_body() {
    let g = function(
        "g",
        vec![("p", reference(Mode::ReadOnly)), ("n", Type::Integer)],
        vec![
            assign(1, "n", &[], 0),
            let_stmt(2, "p", point_literal()),
            let_stmt(3, "other", Expr::Var(s("n"))),
            Stmt { line: 4, kind: StmtKind::Check(Expr::Int(1)) },
            assign(5, "p", &["x", "y"], 13),
            assign(6, "other", &[], 1),
        ],
    );
    assert_eq!(check_function(&g), Verdict::Accept);
}

#[test]
fn rejection_in_a_nested_block_names_that_assignment() {
    let nested = Stmt {
        line: 2,
        kind: StmtKind::If(
            Expr::Int(1),
            vec![let_stmt(3, "q", Expr::Int(0)), assign(4, "q", &[], 1)],
            vec![Stmt {
                line: 5,
                kind: StmtKind::If(Expr::Int(1), vec![assign(6, "p", &["x", "y"], 1)], vec![]),
            }],
        ),
    };
    let g = function("g", vec![("p", reference(Mode::ReadOnly))], vec![nested, assign(9, "p", &[], 1)]);
    assert_eq!(check_function(&g), reject(DiagnosticClass::WritingToReadAlias, "g", 6, "p"));
}
