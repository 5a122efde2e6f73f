use cir::intern::{Intern, Interned, Interner};
use cir::parse::{parse_body, parse_ty};
use cir::subst::{substitute_ty, Substitute};
use cir::ty::{Debruijn, Scalar, Ty, TyData, TyKind};
use cir::typecheck::{TypeError, TypecheckCtxt};

fn check(s: &str, interner: &mut Interner) -> Result<Ty, TypeError> {
    let body = parse_body(s, interner).unwrap();
    TypecheckCtxt { body }.check_body(interner)
}

fn ty(s: &str, interner: &mut Interner) -> Ty {
    parse_ty(s, interner).unwrap()
}

fn int_ty_of(interner: &mut Interner) -> Ty {
    TyKind::Scalar(Scalar::Int).intern(interner)
}

fn bool_ty_of(interner: &mut Interner) -> Ty {
    TyKind::Scalar(Scalar::Bool).intern(interner)
}

#[test]
fn interning_equal_data_gives_one_handle() {
    let mut i = Interner::new();
    assert_eq!(i.count(), 0);
    let a = Interned::intern(TyData::new(TyKind::Scalar(Scalar::Int)), &mut i);
    assert_eq!(i.count(), 1);
    let b = TyData::new(TyKind::Scalar(Scalar::Int)).intern(&mut i);
    assert_eq!(i.count(), 1);
    assert_eq!(a, b);
    let f1 = TyKind::Fn(a, b).intern(&mut i);
    let f2 = TyKind::Fn(b, a).intern(&mut i);
    assert_eq!(f1, f2);
    assert_eq!(i.count(), 2);
    assert_eq!(*f1.deref(&i).kind(), TyKind::Fn(a, a));
}

#[test]
fn interning_distinct_data_gives_distinct_handles() {
    let mut i = Interner::new();
    let int_ty = int_ty_of(&mut i);
    let bool_ty = bool_ty_of(&mut i);
    let float_ty = TyKind::Scalar(Scalar::Float).intern(&mut i);
    assert_ne!(int_ty, bool_ty);
    assert_ne!(int_ty, float_ty);
    assert_ne!(bool_ty, float_ty);
    let v0 = TyKind::Var(Debruijn::new(0)).intern(&mut i);
    let v1 = TyKind::Var(Debruijn::new(1)).intern(&mut i);
    assert_ne!(v0, v1);
    let f = TyKind::Fn(int_ty, bool_ty).intern(&mut i);
    let g = TyKind::Fn(bool_ty, int_ty).intern(&mut i);
    assert_ne!(f, g);
    let all_f = TyKind::ForAll(f).intern(&mut i);
    assert_ne!(all_f, f);
    assert_ne!(TyKind::ForAll(v0).intern(&mut i), TyKind::Fn(v0, v0).intern(&mut i));
    assert_eq!(i.count(), 10);
    assert_eq!(*all_f.deref(&i), TyData::new(TyKind::ForAll(f)));
}

#[test]
fn alpha_equivalent_types_get_one_handle() {
    let mut i = Interner::new();
    let a = ty("forall a. a -> a", &mut i);
    let b = ty("forall b. b -> b", &mut i);
    assert_eq!(a, b);
    let v0 = TyKind::Var(Debruijn::inner()).intern(&mut i);
    let by_hand = TyKind::ForAll(TyKind::Fn(v0, v0).intern(&mut i)).intern(&mut i);
    assert_eq!(a, by_hand);
    assert_ne!(
        ty("forall a. forall b. a -> b", &mut i),
        ty("forall a. forall b. b -> a", &mut i)
    );
    assert_eq!(
        ty("forall a. forall b. a -> b", &mut i),
        ty("forall x. forall y. x -> y", &mut i)
    );
}

#[test]
fn de_bruijn_depth_counts_from_the_innermost_quantifier() {
    let mut i = Interner::new();
    let t = ty("forall a. forall b. forall a. a -> b", &mut i);
    let v0 = TyKind::Var(Debruijn::new(0)).intern(&mut i);
    let v1 = TyKind::Var(Debruijn::new(1)).intern(&mut i);
    let inner = TyKind::Fn(v0, v1).intern(&mut i);
    let l1 = TyKind::ForAll(inner).intern(&mut i);
    let l2 = TyKind::ForAll(l1).intern(&mut i);
    let l3 = TyKind::ForAll(l2).intern(&mut i);
    assert_eq!(t, l3);
}

#[test]
fn substitution_replaces_the_outer_variable_only() {
    let mut i = Interner::new();
    let int_ty = int_ty_of(&mut i);
    let v0 = TyKind::Var(Debruijn::new(0)).intern(&mut i);
    let v1 = TyKind::Var(Debruijn::new(1)).intern(&mut i);
    let id = TyKind::Fn(v0, v0).intern(&mut i);
    assert_eq!(id.substitute(&int_ty, &mut i), ty("Int -> Int", &mut i));
    // forall b. a -> b -> a, seen from under the quantifier of a
    let inner = TyKind::ForAll(TyKind::Fn(v1, TyKind::Fn(v0, v1).intern(&mut i)).intern(&mut i))
        .intern(&mut i);
    assert_eq!(inner.substitute(&int_ty, &mut i), ty("forall b. Int -> b -> Int", &mut i));
    // a variable that is not the one substituted for stays
    assert_eq!(v1.substitute(&int_ty, &mut i), v1);
    assert_eq!(substitute_ty(&v1, &int_ty, Debruijn::new(1), &mut i), int_ty);
    assert_eq!(substitute_ty(&v0, &int_ty, Debruijn::new(1), &mut i), v0);
    assert_eq!(substitute_ty(&int_ty, &v0, Debruijn::new(0), &mut i), int_ty);
}

#[test]
fn substitution_at_the_largest_cutoff_leaves_a_quantified_body() {
    let mut i = Interner::new();
    let int_ty = int_ty_of(&mut i);
    let top = TyKind::Var(Debruijn::new(u32::MAX)).intern(&mut i);
    let all = TyKind::ForAll(top).intern(&mut i);
    assert_eq!(substitute_ty(&top, &int_ty, Debruijn::new(u32::MAX), &mut i), int_ty);
    assert_eq!(substitute_ty(&all, &int_ty, Debruijn::new(u32::MAX), &mut i), all);
}

#[test]
fn literals_check_to_their_scalars() {
    let mut i = Interner::new();
    assert_eq!(check("42", &mut i), Ok(int_ty_of(&mut i)));
    assert_eq!(check("-7", &mut i), Ok(int_ty_of(&mut i)));
    assert_eq!(check("false", &mut i), Ok(bool_ty_of(&mut i)));
}

#[test]
fn lambdas_check_to_function_types() {
    let mut i = Interner::new();
    assert_eq!(check("\\x: Int. x", &mut i), Ok(ty("Int -> Int", &mut i)));
    assert_eq!(check("\\x: Int. \\y: Bool. x", &mut i), Ok(ty("Int -> Bool -> Int", &mut i)));
}

#[test]
fn application_checks_the_argument_against_the_parameter() {
    let mut i = Interner::new();
    assert_eq!(check("(\\x: Int. x) 5", &mut i), Ok(int_ty_of(&mut i)));
    let error = check("(\\x: Int. x) true", &mut i).unwrap_err();
    let int_ty = int_ty_of(&mut i);
    let bool_ty = bool_ty_of(&mut i);
    match error {
        TypeError::TypeMismatch { expr, expected, actual } => {
            assert_eq!(expected, int_ty);
            assert_eq!(actual, bool_ty);
            // the lambda body, the lambda, the argument, then the application
            assert_eq!(expr.into_raw(), 3);
        }
        other => panic!("{:?}", other),
    }
    assert!(!error.is_internal());
}

#[test]
fn type_application_round_trip() {
    let mut i = Interner::new();
    assert_eq!(check("(\\@a. \\x: a. x) @Int", &mut i), Ok(ty("Int -> Int", &mut i)));
    assert_eq!(
        check("(\\@a. \\@b. \\x: a. \\y: b. x) @Int", &mut i),
        Ok(ty("forall b. Int -> b -> Int", &mut i))
    );
    assert_eq!(check("\\@a. 0", &mut i), Ok(ty("forall a. Int", &mut i)));
}

#[test]
fn inner_binder_shadows_outer() {
    let mut i = Interner::new();
    assert_eq!(check("\\x: Int. \\x: Bool. x", &mut i), Ok(ty("Int -> Bool -> Bool", &mut i)));
    // the outer binder is visible again behind the inner lambda
    assert_eq!(
        check("\\x: Int. (\\f: Int -> Int. f x) (\\x: Int. x)", &mut i),
        Ok(ty("Int -> Int", &mut i))
    );
}

#[test]
fn checking_twice_gives_the_same_handle() {
    let mut i = Interner::new();
    let body = parse_body("(\\@a. \\x: a. x) @Int", &mut i).unwrap();
    let cx = TypecheckCtxt { body };
    let first = cx.check_body(&mut i);
    let count = i.count();
    let second = cx.check_body(&mut i);
    assert_eq!(first, second);
    assert_eq!(i.count(), count);
    let failing = TypecheckCtxt { body: parse_body("(\\x: Int. x) true", &mut i).unwrap() };
    let first = failing.check_body(&mut i);
    assert!(first.is_err());
    assert_eq!(first, failing.check_body(&mut i));
}

#[test]
fn debruijn_operations() {
    assert_eq!(Debruijn::new(3).index(), 3);
    assert_eq!(Debruijn::inner(), Debruijn::new(0));
    assert_eq!(Debruijn::new(3).shifted_in(), Debruijn::new(4));
    assert!(Debruijn::new(3).within(Debruijn::new(3)));
    assert!(Debruijn::new(2).within(Debruijn::new(3)));
    assert!(!Debruijn::new(4).within(Debruijn::new(3)));
}

#[test]
fn types_are_shown_with_their_handles() {
    let mut i = Interner::new();
    assert_eq!(int_ty_of(&mut i).show(&i), "Interned(Int)");
    assert_eq!(TyKind::Scalar(Scalar::Float).show(&i), "Float");
    let id = ty("forall a. a -> a", &mut i);
    assert_eq!(
        id.show(&i),
        "Interned(\u{2200}Interned((Interned(Debruijn(0)) -> Interned(Debruijn(0)))))"
    );
    assert_eq!(id.deref(&i).show(&i), "\u{2200}Interned((Interned(Debruijn(0)) -> Interned(Debruijn(0))))");
    let far = TyKind::Var(Debruijn::new(u32::MAX)).intern(&mut i);
    assert_eq!(far.show(&i), "Interned(Debruijn(4294967295))");
    assert_eq!(TyKind::Var(Debruijn::new(10)).show(&i), "Debruijn(10)");
    assert_eq!(TyKind::Var(Debruijn::new(907)).show(&i), "Debruijn(907)");
    let f = ty("Bool -> Int", &mut i);
    assert_eq!(f.show(&i), "Interned((Interned(Bool) -> Interned(Int)))");
}
