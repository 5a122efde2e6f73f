use cir::intern::Interner;
use cir::parse::{parse_body, parse_ty};
use cir::subst::Substitute;
use cir::ty::{Scalar, Ty, TyKind};
use cir::typecheck::TypecheckCtxt;

fn check_expr(s: &str, interner: &mut Interner) -> Ty {
    let body = parse_body(s, interner).unwrap();
    TypecheckCtxt { body }.check_body(interner).unwrap()
}

fn ty(s: &str, interner: &mut Interner) -> Ty {
    parse_ty(s, interner).unwrap()
}

fn ty_bool(interner: &mut Interner) -> Ty {
    TyKind::Scalar(Scalar::Bool).intern(interner)
}

fn ty_int(interner: &mut Interner) -> Ty {
    TyKind::Scalar(Scalar::Int).intern(interner)
}

fn skip_binder(ty: Ty, interner: &Interner) -> Ty {
    match ty.deref(interner).kind() {
        TyKind::ForAll(body) => *body,
        _ => panic!("not a quantified type"),
    }
}

#[test]
fn test_typeck_scalar() {
    let mut i = Interner::new();
    assert_eq!(check_expr("false", &mut i), ty_bool(&mut i));
    assert_eq!(check_expr("true", &mut i), ty_bool(&mut i));
    assert_eq!(check_expr("42", &mut i), ty_int(&mut i));
}

#[test]
fn test_typeck_simple_lambda() {
    let mut i = Interner::new();
    assert_eq!(check_expr("\\x: Bool.0", &mut i), ty("Bool -> Int", &mut i));
    assert_eq!(check_expr("\\x: Int.x", &mut i), ty("Int -> Int", &mut i));
    assert_eq!(check_expr("\\x: Int. \\y: Bool.x", &mut i), ty("Int -> Bool -> Int", &mut i));
    assert_eq!(check_expr("\\x: Int. \\y: Bool.y", &mut i), ty("Int -> Bool -> Bool", &mut i));
}

#[test]
fn test_typeck_higher_order_lambda() {
    let mut i = Interner::new();
    assert_eq!(
        check_expr("\\p:(Int -> Bool).\\x: Int.(p x)", &mut i),
        ty("(Int -> Bool) -> Int -> Bool", &mut i)
    );
    assert_eq!(
        check_expr("\\p:(Int -> Bool).\\x: Int.p", &mut i),
        ty("(Int -> Bool) -> Int -> Int -> Bool", &mut i)
    );
}

#[test]
fn test_typeck_type_lambda() {
    let mut i = Interner::new();
    assert_eq!(ty("forall a. a -> a", &mut i), ty("forall b. b -> b", &mut i));
    assert_eq!(check_expr("\\@a.\\x:a.x", &mut i), ty("forall a. a -> a", &mut i));
    assert_eq!(
        check_expr("\\@a.\\@b.\\x:a.\\y:b.y", &mut i),
        ty("forall a. forall b. a -> b -> b", &mut i)
    );
    assert_eq!(check_expr("\\@a.42", &mut i), ty("forall a. Int", &mut i));
}

#[test]
fn test_typeck_type_application() {
    let mut i = Interner::new();
    assert_eq!(check_expr("(\\@a.\\x:a.x) @Int", &mut i), ty("Int -> Int", &mut i));
    assert_eq!(
        check_expr("(\\@a.\\@b.\\x:a.\\y:b.x) @Int @Bool", &mut i),
        ty("Int -> Bool -> Int", &mut i)
    );
}

#[test]
fn test_typeck_partial_type_application() {
    let mut i = Interner::new();
    assert_eq!(
        check_expr("(\\@a.\\@b.\\x:a.\\y:b.x) @Int", &mut i),
        ty("forall b. Int -> b -> Int", &mut i)
    );
    // The names of forall binders take no part in equality.
    assert_eq!(
        check_expr("(\\@a.\\@b.\\x:a.\\y:b.x) @Int", &mut i),
        ty("forall a. Int -> a -> Int", &mut i)
    );
}

#[test]
fn test_typeck_simple_app() {
    let mut i = Interner::new();
    assert_eq!(check_expr("(\\x:Int.x) 5", &mut i), ty_int(&mut i));
}

#[test]
fn test_typeck_higher_order_app() {
    let mut i = Interner::new();
    assert_eq!(
        check_expr("(\\p:Int -> Bool.\\x:Int.p x) (\\x:Int.false) 0", &mut i),
        ty_bool(&mut i)
    );
}

#[test]
fn test_higher_rank_app() {
    let mut i = Interner::new();
    assert_eq!(
        check_expr("\\@a.\\f:(forall b. a -> b).\\x:a.x", &mut i),
        ty("forall a. (forall b. a -> b) -> a -> a", &mut i)
    );
    assert_eq!(
        check_expr("(\\@a.\\f:(forall b. a -> b).\\x:a.x) @Int", &mut i),
        ty("(forall b. Int -> b) -> Int -> Int", &mut i)
    );
    assert_eq!(
        check_expr("(\\@a.\\f:(forall b. b -> a).\\x:a.x) @Int (\\@b.\\y:b.0) 0", &mut i),
        ty_int(&mut i)
    );
}

#[test]
fn test_subst() {
    let mut i = Interner::new();
    let t = ty("Int", &mut i);
    let bool_ty = ty_bool(&mut i);
    assert_eq!(t.substitute(&bool_ty, &mut i), ty_int(&mut i));

    // Skip the binder as the checker chops off the forall before substituting
    let int_ty = ty_int(&mut i);
    let t = ty("forall a. a -> a", &mut i);
    let inner = skip_binder(t, &i);
    assert_eq!(inner.substitute(&int_ty, &mut i), ty("Int -> Int", &mut i));

    let t = ty("forall a. forall b. a -> b -> a", &mut i);
    let inner = skip_binder(t, &i);
    assert_eq!(inner.substitute(&int_ty, &mut i), ty("forall b. Int -> b -> Int", &mut i));

    let t = ty("forall a. (forall b. a -> b) -> a", &mut i);
    let inner = skip_binder(t, &i);
    assert_eq!(inner.substitute(&int_ty, &mut i), ty("(forall b. (Int -> b)) -> Int", &mut i));
}
