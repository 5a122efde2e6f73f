use cir::ast::{Binder, Expr, Item, ItemKind, Literal, LiteralKind, SourceFile, TyVar, Type, ValueDef, Var};
use cir::cirparser;
use cir::name::Name;
use cir::span::Span;
use cir::ty::Scalar;

fn name(start: u32, end: u32, symbol: &str) -> Name {
    Name::new(Span::new(start, end), symbol)
}

fn ty_var(start: u32, end: u32, symbol: &str) -> Type {
    Type::Var(TyVar { name: name(start, end, symbol) })
}

fn var(start: u32, end: u32, symbol: &str) -> Expr {
    Expr::Var(Var::Val { name: name(start, end, symbol) })
}

fn app(f: Expr, x: Expr) -> Expr {
    Expr::App(Box::new(f), Box::new(x))
}

fn lambda(binder: Binder, body: Expr) -> Expr {
    Expr::Lambda(binder, Box::new(body))
}

fn arrow(l: Type, r: Type) -> Type {
    Type::Fn(Box::new(l), Box::new(r))
}

fn quantified(var: Name, body: Type) -> Type {
    Type::ForAll(TyVar { name: var }, Box::new(body))
}

// Names are equal when their symbols are, so the spans are compared through
// the debug output.
fn same<T: std::fmt::Debug>(found: &T, expected: &T) {
    assert_eq!(format!("{:#?}", found), format!("{:#?}", expected));
}

#[test]
fn test_parse_lname() {
    assert_eq!(cirparser::lname("x").unwrap().symbol, "x");
    assert_eq!(cirparser::lname("lowerIdent").unwrap().symbol, "lowerIdent");
    assert_eq!(cirparser::lname("lower123").unwrap().symbol, "lower123");
    assert_eq!(cirparser::lname("_lower").unwrap().symbol, "_lower");
    assert!(cirparser::lname("Upper123").is_err());
}

#[test]
fn test_parse_uname() {
    assert_eq!(cirparser::uname("X").unwrap().symbol, "X");
    assert_eq!(cirparser::uname("UpperIdent").unwrap().symbol, "UpperIdent");
    assert_eq!(cirparser::uname("Upper123").unwrap().symbol, "Upper123");
    assert!(cirparser::uname("lower123").is_err());
}

#[test]
fn test_parse_lit() {
    assert_eq!(
        cirparser::literal(" false ").unwrap(),
        Literal { span: Span::new(1, 6), kind: LiteralKind::Bool(false) }
    );
    assert_eq!(
        cirparser::literal("  true ").unwrap(),
        Literal { span: Span::new(2, 6), kind: LiteralKind::Bool(true) }
    );
    assert_eq!(
        cirparser::literal(" -288 ").unwrap(),
        Literal { span: Span::new(1, 5), kind: LiteralKind::Int(-288) }
    );
}

#[test]
fn test_parse_expr_lit() {
    assert_eq!(
        cirparser::expr("x").unwrap(),
        Expr::Var(Var::Val { name: Name { span: Span::new(0, 1), symbol: "x".into() } })
    );
}

#[test]
fn test_parse_expr_group() {
    let expected = app(
        lambda(Binder::Val(name(2, 3, "x"), ty_var(5, 6, "a")), var(8, 9, "x")),
        lambda(Binder::Val(name(13, 14, "y"), ty_var(16, 17, "b")), var(20, 21, "y")),
    );
    same(&cirparser::expr("(\\x: a. x) (\\y: b.  y)").unwrap(), &expected);
}

#[test]
fn test_parse_expr_app() {
    same(&cirparser::expr("f x").unwrap(), &app(var(0, 1, "f"), var(2, 3, "x")));
    same(
        &cirparser::expr("f x y").unwrap(),
        &app(app(var(0, 1, "f"), var(2, 3, "x")), var(4, 5, "y")),
    );
    same(
        &cirparser::expr("(\\x: a. x) y").unwrap(),
        &app(
            lambda(Binder::Val(name(2, 3, "x"), ty_var(5, 6, "a")), var(8, 9, "x")),
            var(11, 12, "y"),
        ),
    );
    assert_ne!(
        cirparser::expr("(\\x: b. x) y").unwrap(),
        cirparser::expr("\\x: b. x y").unwrap()
    );
}

#[test]
fn test_parse_binder() {
    assert_eq!(
        cirparser::binder("x: a").unwrap(),
        Binder::Val(
            Name::new(Span::new(0, 1), "x"),
            Type::Var(TyVar { name: Name::new(Span::new(3, 4), "a") })
        )
    );

    assert_eq!(
        cirparser::binder("@t").unwrap(),
        Binder::Ty(TyVar { name: Name::new(Span::new(1, 2), "t") })
    );
}

#[test]
fn test_parse_lambda() {
    same(
        &cirparser::expr("\\x: a. x").unwrap(),
        &lambda(Binder::Val(name(1, 2, "x"), ty_var(4, 5, "a")), var(7, 8, "x")),
    );
    same(
        &cirparser::expr("\\x: a. \\y: b. x").unwrap(),
        &lambda(
            Binder::Val(name(1, 2, "x"), ty_var(4, 5, "a")),
            lambda(Binder::Val(name(8, 9, "y"), ty_var(11, 12, "b")), var(14, 15, "x")),
        ),
    );
    same(
        &cirparser::expr("\\@a. \\x: a. x").unwrap(),
        &lambda(
            Binder::Ty(TyVar { name: name(2, 3, "a") }),
            lambda(Binder::Val(name(6, 7, "x"), ty_var(9, 10, "a")), var(12, 13, "x")),
        ),
    );
}

#[test]
fn test_parse_ty() {
    // The scalar types are spelled with a capital; a lower-case word is a
    // type variable.
    assert_eq!(cirparser::ty("int").unwrap(), ty_var(0, 3, "int"));
    assert_eq!(cirparser::ty("((int))").unwrap(), ty_var(2, 5, "int"));
    assert_eq!(cirparser::ty("bool").unwrap(), ty_var(0, 4, "bool"));
    assert_eq!(cirparser::ty("Int").unwrap(), Type::Scalar(Scalar::Int));
    assert_eq!(cirparser::ty("((Int))").unwrap(), Type::Scalar(Scalar::Int));
    assert_eq!(cirparser::ty("Bool").unwrap(), Type::Scalar(Scalar::Bool));
    assert_eq!(
        cirparser::ty("a").unwrap(),
        Type::Var(TyVar { name: Name { symbol: "a".into(), span: Span::new(0, 1) } })
    );
    // A type starts at its first byte: white space around it is not read.
    assert!(cirparser::ty(" a -> b ").is_err());
    assert!(cirparser::ty(" a -> b -> c ").is_err());
    assert!(cirparser::ty(" forall a.a -> a ").is_err());
    assert!(cirparser::ty(" forall a. forall b. a -> b").is_err());
    same(
        &cirparser::ty("a -> b").unwrap(),
        &arrow(ty_var(0, 1, "a"), ty_var(5, 6, "b")),
    );
    same(
        &cirparser::ty("a -> b -> c").unwrap(),
        &arrow(ty_var(0, 1, "a"), arrow(ty_var(5, 6, "b"), ty_var(10, 11, "c"))),
    );
    same(
        &cirparser::ty("forall a.a -> a").unwrap(),
        &quantified(name(7, 8, "a"), arrow(ty_var(9, 10, "a"), ty_var(14, 15, "a"))),
    );
    same(
        &cirparser::ty("forall a. forall b. a -> b").unwrap(),
        &quantified(
            name(7, 8, "a"),
            quantified(name(17, 18, "b"), arrow(ty_var(20, 21, "a"), ty_var(25, 26, "b"))),
        ),
    );
}

#[test]
fn test_parse_value_def() {
    let value_def = ValueDef {
        name: Name { span: Span::new(5, 6), symbol: "x".into() },
        ty: Type::Var(TyVar { name: Name { span: Span::new(8, 9), symbol: "a".into() } }),
        expr: Expr::Var(Var::Val { name: Name { span: Span::new(12, 13), symbol: "k".into() } }),
    };
    assert_eq!(cirparser::value_def(" let x: a = k ").unwrap(), value_def);
    same(&cirparser::value_def(" let x: a = k ").unwrap(), &value_def);
}

#[test]
fn test_parse_ty_arrow() {
    assert_eq!(
        cirparser::ty("a").unwrap(),
        Type::Var(TyVar { name: Name { span: Span::new(0, 1), symbol: "a".into() } })
    );
}

#[test]
fn test_parse_item() {
    let expected = Item {
        span: Span::new(1, 14),
        kind: ItemKind::ValueDef(ValueDef {
            name: name(5, 6, "x"),
            ty: ty_var(8, 9, "a"),
            expr: var(12, 13, "k"),
        }),
    };
    same(&cirparser::item(" let x: a = k ").unwrap(), &expected);
}

#[test]
fn test_parse_source_file() {
    let expected = SourceFile {
        items: vec![
            Item {
                span: Span::new(1, 15),
                kind: ItemKind::ValueDef(ValueDef {
                    name: name(5, 6, "x"),
                    ty: ty_var(8, 9, "a"),
                    expr: var(12, 13, "k"),
                }),
            },
            Item {
                span: Span::new(15, 27),
                kind: ItemKind::ValueDef(ValueDef {
                    name: name(19, 20, "y"),
                    ty: ty_var(22, 23, "b"),
                    expr: var(26, 27, "g"),
                }),
            },
        ],
    };
    same(&cirparser::source_file(" let x: a = k\n let y: b = g").unwrap(), &expected);
}
