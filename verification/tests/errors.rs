use cir::ast;
use cir::cirparser;
use cir::cirparser::SyntaxError;
use cir::intern::Interner;
use cir::ir::{Binder, BinderData, BodyData, Expr, ExprData, Item, Lit};
use cir::lower::{BodyLowerCtxt, LowerCtxt, LowerError};
use cir::name::Name;
use cir::parse::{parse_body, parse_ty, ParseError};
use cir::span::Span;
use cir::ty::{Scalar, Ty, TyKind};
use cir::typecheck::{TypeError, TypecheckCtxt};
use la_arena::Arena;

fn check(s: &str, interner: &mut Interner) -> Result<Ty, TypeError> {
    let body = parse_body(s, interner).unwrap();
    TypecheckCtxt { body }.check_body(interner)
}

#[test]
fn applying_a_scalar_is_not_callable() {
    let mut i = Interner::new();
    let int_ty = TyKind::Scalar(Scalar::Int).intern(&mut i);
    assert_eq!(
        check("(5) 5", &mut i),
        Err(TypeError::NotCallable { expr: Expr::from_raw(2), found: int_ty })
    );
}

#[test]
fn instantiating_with_a_value_expects_a_type() {
    let mut i = Interner::new();
    assert_eq!(
        check("(\\@a. \\x: a. x) 5", &mut i),
        Err(TypeError::ExpectedTypeArgument { expr: Expr::from_raw(4) })
    );
}

#[test]
fn a_type_on_its_own_is_an_internal_fault() {
    let mut i = Interner::new();
    let error = check("@Int", &mut i).unwrap_err();
    assert_eq!(error, TypeError::TypeInExprPosition { expr: Expr::from_raw(0) });
    assert!(error.is_internal());
    // also as the argument of a function that is not quantified
    assert_eq!(
        check("(\\x: Int. x) @Int", &mut i),
        Err(TypeError::TypeInExprPosition { expr: Expr::from_raw(2) })
    );
}

#[test]
fn a_variable_that_refers_to_a_type_binder_is_an_internal_fault() {
    let mut i = Interner::new();
    let mut exprs = Arena::new();
    let mut binders = Arena::new();
    binders.alloc(BinderData::Ty);
    exprs.alloc(ExprData::Var(Binder::from_raw(0)));
    exprs.alloc(ExprData::Lambda(Binder::from_raw(0), Expr::from_raw(0)));
    let body = BodyData::new(Expr::from_raw(1), exprs, binders);
    let error = TypecheckCtxt { body }.check_body(&mut i).unwrap_err();
    assert_eq!(error, TypeError::TypeBinderAsValue { expr: Expr::from_raw(0) });
    assert!(error.is_internal());
}

#[test]
fn the_function_is_checked_before_the_argument() {
    let mut i = Interner::new();
    // both sides are faulty: the fault of the function is reported
    assert_eq!(
        check("((1) 2) ((3) 4)", &mut i),
        Err(TypeError::NotCallable {
            expr: Expr::from_raw(2),
            found: TyKind::Scalar(Scalar::Int).intern(&mut i)
        })
    );
}

#[test]
fn check_binder_gives_the_declared_type_of_a_value_binder() {
    let mut i = Interner::new();
    let body = parse_body("\\@a. \\x: Int. x", &mut i).unwrap();
    let cx = TypecheckCtxt { body };
    assert_eq!(cx.check_binder(Binder::from_raw(0)), None);
    assert_eq!(cx.check_binder(Binder::from_raw(1)), Some(TyKind::Scalar(Scalar::Int).intern(&mut i)));
    assert_eq!(cx.binder(Binder::from_raw(0)), &BinderData::Ty);
}

#[test]
fn unbound_value_variable() {
    let mut i = Interner::new();
    match parse_body("\\x: Int. y", &mut i) {
        Err(ParseError::Lower(LowerError::UnboundIdentifier { name })) => {
            assert_eq!(name.symbol, "y");
            assert_eq!(name.span, Span::new(9, 10));
        }
        other => panic!("{:?}", other),
    }
    // a binder is out of scope behind its lambda
    assert!(matches!(
        parse_body("(\\x: Int. x) x", &mut i),
        Err(ParseError::Lower(LowerError::UnboundIdentifier { .. }))
    ));
}

#[test]
fn unbound_type_variable() {
    let mut i = Interner::new();
    match parse_ty("forall a. b", &mut i) {
        Err(ParseError::Lower(LowerError::UnboundIdentifier { name })) => {
            assert_eq!(name.symbol, "b");
        }
        other => panic!("{:?}", other),
    }
    assert!(matches!(
        parse_body("\\x: a. x", &mut i),
        Err(ParseError::Lower(LowerError::UnboundIdentifier { .. }))
    ));
    // a quantifier is out of scope behind its type
    assert!(matches!(
        parse_ty("(forall a. a) -> a", &mut i),
        Err(ParseError::Lower(LowerError::UnboundIdentifier { .. }))
    ));
    // the first fault from the left is reported
    match parse_ty("x -> y", &mut i) {
        Err(ParseError::Lower(LowerError::UnboundIdentifier { name })) => {
            assert_eq!(name.symbol, "x");
        }
        other => panic!("{:?}", other),
    }
}

#[test]
fn scopes_are_restored_after_a_failure() {
    let mut i = Interner::new();
    let mut lcx = LowerCtxt::new();
    let bad = cirparser::ty("forall a. forall b. c").unwrap();
    assert!(lcx.lower_ty(&bad, &mut i).is_err());
    // neither a nor b is left in scope
    let a = cirparser::ty("a").unwrap();
    assert!(lcx.lower_ty(&a, &mut i).is_err());

    let mut bcx = BodyLowerCtxt::new();
    let bad = cirparser::expr("\\@a. \\x: Int. y").unwrap();
    assert!(bcx.lower_expr(&mut lcx, &bad, &mut i).is_err());
    let x = cirparser::expr("x").unwrap();
    assert!(bcx.lower_expr(&mut lcx, &x, &mut i).is_err());
    assert!(lcx.lower_ty(&a, &mut i).is_err());
}

#[test]
fn syntax_without_a_lowering_is_unsupported() {
    let mut i = Interner::new();
    let mut lcx = LowerCtxt::new();
    let name = Name::new(Span::new(0, 1), "a");
    let var = ast::Expr::Var(ast::Var::Ty(ast::TyVar { name: name.clone() }));
    assert_eq!(
        BodyLowerCtxt::new().lower_data(&mut lcx, &var, &mut i),
        Err(LowerError::Unsupported)
    );
    let case = ast::Expr::Case(Box::new(cirparser::expr("1").unwrap()), Vec::new());
    assert_eq!(lcx.lower_body(&case, &mut i), Err(LowerError::Unsupported));
    let data = ast::Item {
        span: Span::new(0, 0),
        kind: ast::ItemKind::DataDef(ast::DataDef {
            name,
            binders: Vec::new(),
            variants: Vec::new(),
        }),
    };
    assert_eq!(lcx.lower_item(&data, &mut i), Err(LowerError::Unsupported));
}

#[test]
fn a_file_is_lowered_item_by_item() {
    let mut i = Interner::new();
    let mut lcx = LowerCtxt::new();
    let file = cirparser::source_file("let id: forall a. a -> a = \\@a. \\x: a. x\nlet one: Int = 1")
        .unwrap();
    let items = lcx.lower_source_file(&file, &mut i).unwrap();
    assert_eq!(items.items.len(), 2);
    let expected = [
        ("id", parse_ty("forall t. t -> t", &mut i).unwrap()),
        ("one", parse_ty("Int", &mut i).unwrap()),
    ];
    for (k, item) in items.items.iter().enumerate() {
        let def = match item {
            Item::ValueDef(def) => *def,
            Item::DataDef(_) => panic!(),
        };
        assert_eq!(def.into_raw() as usize, k);
        let data = lcx.value_def(def);
        assert_eq!(data.name.symbol, expected[k].0);
        assert_eq!(data.ty, expected[k].1);
        assert_eq!(data.body.into_raw() as usize, k);
    }
    let first = lcx.lower_body(&cirparser::expr("true").unwrap(), &mut i).unwrap();
    assert_eq!(first.into_raw(), 2);
    assert_eq!(lcx.body(first).index(Expr::from_raw(0)), &ExprData::Lit(Lit::Bool(true)));

    // the first item that cannot be lowered stops the file
    let bad = cirparser::source_file("let a: Int = 1\nlet b: Int = c\nlet d: Int = e").unwrap();
    match lcx.lower_source_file(&bad, &mut i) {
        Err(LowerError::UnboundIdentifier { name }) => assert_eq!(name.symbol, "c"),
        other => panic!("{:?}", other),
    }
}

#[test]
fn text_that_is_not_read_to_its_end() {
    assert_eq!(
        cirparser::expr("x)"),
        Err(SyntaxError::Unparsed { span: Span::new(1, 2) })
    );
    assert_eq!(cirparser::expr(""), Err(SyntaxError::Unparsed { span: Span::new(0, 0) }));
    assert_eq!(cirparser::expr("(x"), Err(SyntaxError::Unparsed { span: Span::new(0, 2) }));
    assert_eq!(cirparser::ty(" a"), Err(SyntaxError::Unparsed { span: Span::new(0, 2) }));
    assert_eq!(cirparser::ty("a "), Err(SyntaxError::Unparsed { span: Span::new(1, 2) }));
    assert_eq!(cirparser::ty("a ->"), Err(SyntaxError::Unparsed { span: Span::new(1, 4) }));
    // a literal reads the white space behind it, so no blank is left to apply with
    assert_eq!(cirparser::expr("1 2"), Err(SyntaxError::Unparsed { span: Span::new(2, 3) }));
    // white space before an operand is read, white space behind a name is not
    assert!(cirparser::expr("f  x").is_ok());
    assert_eq!(cirparser::expr("f x "), Err(SyntaxError::Unparsed { span: Span::new(3, 4) }));
    assert_eq!(cirparser::lname("x y"), Err(SyntaxError::Unparsed { span: Span::new(1, 3) }));
    assert_eq!(cirparser::expr("é"), Err(SyntaxError::Unparsed { span: Span::new(0, 2) }));
    let mut i = Interner::new();
    assert_eq!(
        parse_body("\\x. x", &mut i),
        Err(ParseError::Syntax(SyntaxError::Unparsed { span: Span::new(0, 5) }))
    );
    assert_eq!(
        parse_ty("Int ->", &mut i),
        Err(ParseError::Syntax(SyntaxError::Unparsed { span: Span::new(3, 6) }))
    );
}

#[test]
fn integers_keep_sixty_four_bits() {
    let lit = |s: &str| cirparser::integer_literal(s).map(|l| l.kind);
    assert_eq!(lit("9223372036854775807"), Ok(ast::LiteralKind::Int(i64::MAX)));
    assert_eq!(lit("-9223372036854775808"), Ok(ast::LiteralKind::Int(i64::MIN)));
    assert_eq!(lit("-9223372036854775807"), Ok(ast::LiteralKind::Int(-i64::MAX)));
    assert_eq!(lit("000000000000000000000000012"), Ok(ast::LiteralKind::Int(12)));
    assert_eq!(lit("-0"), Ok(ast::LiteralKind::Int(0)));
    assert!(lit("9223372036854775808").is_err());
    assert!(lit("-9223372036854775809").is_err());
    assert!(lit("99999999999999999999999999999").is_err());
    assert!(lit("-").is_err());
    assert!(lit("+1").is_err());
    assert_eq!(
        cirparser::integer_literal("288").unwrap().span,
        Span::new(0, 3)
    );
    assert_eq!(
        cirparser::boolean_literal("true"),
        Ok(ast::Literal { span: Span::new(0, 4), kind: ast::LiteralKind::Bool(true) })
    );
    assert!(cirparser::boolean_literal("True").is_err());
}

#[test]
fn keywords_are_read_before_names() {
    // `forall` directly followed by a name is a quantifier
    let t = cirparser::ty("forallx.x").unwrap();
    assert!(matches!(t, ast::Type::ForAll(_, _)));
    // where no quantifier can be read, `forall` is a name
    assert!(matches!(cirparser::ty("forall").unwrap(), ast::Type::Var(_)));
    assert!(matches!(cirparser::ty("int").unwrap(), ast::Type::Var(_)));
    assert!(matches!(cirparser::ty("bool").unwrap(), ast::Type::Var(_)));
    // a scalar is read as soon as its letters are, whatever follows
    assert!(cirparser::ty("Integer").is_err());
    // a variable on its own is read as a type variable
    assert!(matches!(cirparser::var("x").unwrap(), ast::Var::Ty(_)));
    assert_eq!(cirparser::tyvar("t").unwrap().name.symbol, "t");
    assert_eq!(cirparser::value_def_item("let x: a = k").unwrap().span, Span::new(0, 12));
}

#[test]
fn names_are_equal_by_symbol() {
    let a = Name::new(Span::new(0, 1), "a");
    let also_a = Name::new(Span::new(7, 8), "a");
    let b = Name::new(Span::new(0, 1), "b");
    assert_eq!(a, also_a);
    assert!(a.same_symbol(&also_a));
    assert_ne!(a, b);
    assert!(!a.same_symbol(&b));
    let copy = also_a.clone();
    assert_eq!(copy.span, Span::new(7, 8));
    assert_eq!(copy.symbol, "a");
    let spelled = Name::from_ascii(Span::initial(), &[104, 105]);
    assert_eq!(spelled.symbol, "hi");
    assert_eq!(spelled.span.start(), 0);
    assert_eq!(spelled.span.end(), 0);
}

#[test]
fn a_single_path_has_one_segment() {
    let path = cir::path::Path::single(Name::new(Span::new(3, 6), "foo"));
    assert_eq!(path.len(), 1);
    let name = path.segment(0).unwrap();
    assert_eq!(name.symbol, "foo");
    assert_eq!(name.span, Span::new(3, 6));
    assert!(path.segment(1).is_none());
    assert_eq!(path, cir::path::Path::single(Name::new(Span::new(0, 0), "foo")));
    assert_ne!(path, cir::path::Path::single(Name::new(Span::new(3, 6), "bar")));
}

#[test]
fn well_formedness_of_a_body_is_decidable() {
    let mut i = Interner::new();
    let body = parse_body("(\\@a. \\x: a. x) @Int", &mut i).unwrap();
    assert!(body.is_wf(&i));
    // the same body over an interner that has not seen its types
    assert!(!body.is_wf(&Interner::new()));

    let mut exprs = Arena::new();
    exprs.alloc(ExprData::App(Expr::from_raw(0), Expr::from_raw(0)));
    let looping = BodyData::new(Expr::from_raw(0), exprs, Arena::new());
    assert!(!looping.is_wf(&i));

    let mut exprs = Arena::new();
    exprs.alloc(ExprData::Var(Binder::from_raw(0)));
    let dangling = BodyData::new(Expr::from_raw(0), exprs, Arena::new());
    assert!(!dangling.is_wf(&i));

    let mut exprs = Arena::new();
    exprs.alloc(ExprData::Lit(Lit::Int(1)));
    let rootless = BodyData::new(Expr::from_raw(1), exprs, Arena::new());
    assert!(!rootless.is_wf(&i));
    let mut exprs = Arena::new();
    exprs.alloc(ExprData::Lit(Lit::Int(1)));
    assert!(BodyData::new(Expr::from_raw(0), exprs, Arena::new()).is_wf(&i));
    let int_ty = TyKind::Scalar(Scalar::Int).intern(&mut i);
    assert!(i.contains(int_ty));
    assert!(!Interner::new().contains(int_ty));
}

#[test]
fn a_cloned_body_is_the_same_body() {
    let mut i = Interner::new();
    let body = parse_body("(\\@a. \\x: a. x) @Int", &mut i).unwrap();
    let copy = body.clone();
    assert_eq!(copy, body);
    assert_eq!(copy.exprs.len(), 5);
    assert_eq!(copy.binders.len(), 2);
    let first = TypecheckCtxt { body }.check_body(&mut i);
    assert_eq!(first, TypecheckCtxt { body: copy }.check_body(&mut i));
}
