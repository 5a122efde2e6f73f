use cir::cirparser;
use cir::intern::Interner;
use cir::ir::{BinderData, Expr, ExprData};
use la_arena::{Idx, RawIdx};
use cir::lower::LowerCtxt;
use cir::parse::parse_body;
use cir::ty::{Scalar, TyKind};

#[test]
fn test_lower_program() {
    let source = cirparser::source_file("let x: Int = 1\nlet y: Bool = false").unwrap();
    let mut interner = Interner::new();
    let mut lcx = LowerCtxt::default();
    let file = lcx.lower_source_file(&source, &mut interner).unwrap();
    assert_eq!(file.items.len(), 2);
}

#[test]
fn test_lower_value_def() {
    let value_def = cirparser::value_def("let x: Int = 1").unwrap();
    let mut interner = Interner::new();
    let mut lcx = LowerCtxt::default();
    lcx.lower_value_def(&value_def, &mut interner).unwrap();
}

#[test]
fn test_lower_binders() {
    let mut interner = Interner::new();
    let body = parse_body("\\x: Int.x", &mut interner).unwrap();
    assert_eq!(body.expr, Expr::from_raw(1));
    let expr = &body.exprs[Idx::from_raw(RawIdx::from(0))];
    let binder = match expr {
        ExprData::Var(binder) => *binder,
        _ => panic!(),
    };
    let binder = body.binder(binder);
    assert_eq!(binder, &BinderData::Val(TyKind::Scalar(Scalar::Int).intern(&mut interner)));
}

#[test]
fn test_lower_universal_type() {
}

#[test]
fn test_lower_type_binders() {
    let mut interner = Interner::new();
    let _body = parse_body("\\@a.\\x:a.x", &mut interner).unwrap();
    println!("{:?}", _body);
}

#[test]
fn test_lower_binders_shadows() {
    let mut interner = Interner::new();
    let body = parse_body("\\x:Int.\\x:Bool.x", &mut interner).unwrap();
    assert_eq!(body.expr, Expr::from_raw(2));

    let expr = &body.exprs[Idx::from_raw(RawIdx::from(0))];
    let binder = match expr {
        ExprData::Var(binder) => *binder,
        _ => panic!(),
    };
    let binder = body.binder(binder);
    assert_eq!(binder, &BinderData::Val(TyKind::Scalar(Scalar::Bool).intern(&mut interner)));
}
