//! A function that writes through a read-only reference, ready-made.

use vstd::prelude::*;
use crate::alias::{function_verdict, DiagnosticClass, DiagnosticView};
use crate::alias_laws::law_read_only_param_write_rejected;
use crate::ast::{Expr, FieldType, Function, Mode, Param, Place, Stmt, StmtKind, Type};

verus! {

/// The record type `point`, with integer fields `x`, `y` and `z`.
pub fn point() -> (ty: Type)
    ensures
        ty matches Type::Record(fields) && fields@.len() == 3 && fields@[0].name@ == "x"@
            && fields@[1].name@ == "y"@ && fields@[2].name@ == "z"@ && fields@[0].ty
            == Type::Integer && fields@[1].ty == Type::Integer && fields@[2].ty == Type::Integer,
{
    Type::Record(
        vec![
            FieldType { name: "x".to_owned(), ty: Type::Integer },
            FieldType { name: "y".to_owned(), ty: Type::Integer },
            FieldType { name: "z".to_owned(), ty: Type::Integer },
        ],
    )
}

/// The function `f`, which takes a `point` by read-only reference as `p` and
/// holds the one statement `p.x = 13`, on line 8. The checker rejects it
/// there.
pub fn f() -> (d: Function)
    ensures
        d.name@ == "f"@,
        d.params@.len() == 1,
        d.params@[0].name@ == "p"@,
        d.params@[0].ty matches Type::Reference(inner, Mode::ReadOnly) && *inner
            matches Type::Record(fields) && fields@.len() == 3,
        d.ret is None,
        d.body@.len() == 1,
        d.body@[0].line == 8,
        d.body@[0].kind matches StmtKind::Assign(place, Expr::Int(13)) && place.root@ == "p"@
            && place.path@.len() == 1 && place.path@[0]@ == "x"@,
        function_verdict(d) == Some(
            DiagnosticView {
                class: DiagnosticClass::WritingToReadAlias,
                function: "f"@,
                line: 8,
                binding: "p"@,
            },
        ),
{
    let target = Place { root: "p".to_owned(), path: vec!["x".to_owned()] };
    let d = Function {
        name: "f".to_owned(),
        params: vec![
            Param { name: "p".to_owned(), ty: Type::Reference(Box::new(point()), Mode::ReadOnly) },
        ],
        ret: None,
        body: vec![Stmt { line: 8, kind: StmtKind::Assign(target, Expr::Int(13)) }],
    };
    proof {
        let place = d.body@[0].kind->Assign_0;
        let value = d.body@[0].kind->Assign_1;
        law_read_only_param_write_rejected(d, 0, place, value);
    }
    d
}

} // verus!
