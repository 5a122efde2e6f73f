//! The type checker: computes the type of every expression of a body from
//! the types of its parts.

use vstd::prelude::*;

use crate::intern::Intern;
use crate::intern::Interner;
use crate::ir::Binder;
use crate::ir::BinderData;
use crate::ir::BinderNode;
use crate::ir::BodyData;
use crate::ir::BodyTree;
use crate::ir::Expr;
use crate::ir::ExprData;
use crate::ir::ExprNode;
use crate::ir::Lit;
use crate::subst::subst_tree;
use crate::subst::Substitute;
use crate::ty::Scalar;
use crate::ty::Ty;
use crate::ty::TyData;
use crate::ty::TyKind;
use crate::ty::TyTree;

verus! {

/// Why an expression has no type.
#[derive(Debug, Clone, Copy, PartialEq, Eq, Structural)]
pub enum TypeError {
    /// The application `expr` gives an argument of type `actual` to a
    /// function whose parameter has type `expected`.
    TypeMismatch { expr: Expr, expected: Ty, actual: Ty },
    /// The application `expr` applies a value of type `found`, which is
    /// neither a function nor quantified.
    NotCallable { expr: Expr, found: Ty },
    /// The application `expr` instantiates a quantified type with something
    /// that is not a type.
    ExpectedTypeArgument { expr: Expr },
    /// A fault of the body, not of the program: `expr` is a type that does
    /// not stand as the argument of an application.
    TypeInExprPosition { expr: Expr },
    /// A fault of the body, not of the program: the variable `expr` refers to
    /// a type binder.
    TypeBinderAsValue { expr: Expr },
}

/// A type error whose types are written out as trees.
pub enum TypeFault {
    TypeMismatch { expr: Expr, expected: TyTree, actual: TyTree },
    NotCallable { expr: Expr, found: TyTree },
    ExpectedTypeArgument { expr: Expr },
    TypeInExprPosition { expr: Expr },
    TypeBinderAsValue { expr: Expr },
}

impl TypeError {
    /// This error with the trees that its handles stand for in `interner`.
    pub open spec fn fault(self, interner: Interner) -> TypeFault {
        match self {
            TypeError::TypeMismatch { expr, expected, actual } => TypeFault::TypeMismatch {
                expr,
                expected: interner.tree(expected),
                actual: interner.tree(actual),
            },
            TypeError::NotCallable { expr, found } => TypeFault::NotCallable {
                expr,
                found: interner.tree(found),
            },
            TypeError::ExpectedTypeArgument { expr } => TypeFault::ExpectedTypeArgument { expr },
            TypeError::TypeInExprPosition { expr } => TypeFault::TypeInExprPosition { expr },
            TypeError::TypeBinderAsValue { expr } => TypeFault::TypeBinderAsValue { expr },
        }
    }

    /// Whether the handles of this error are handles of `interner`.
    pub open spec fn typed_in(self, interner: Interner) -> bool {
        match self {
            TypeError::TypeMismatch { expr, expected, actual } => interner.has(expected)
                && interner.has(actual),
            TypeError::NotCallable { expr, found } => interner.has(found),
            _ => true,
        }
    }

    /// Whether this error reports a malformed body rather than an ill-typed
    /// program.
    pub fn is_internal(&self) -> (internal: bool)
        ensures
            internal == (self is TypeInExprPosition || self is TypeBinderAsValue),
    {
        match self {
            TypeError::TypeInExprPosition { .. } => true,
            TypeError::TypeBinderAsValue { .. } => true,
            _ => false,
        }
    }
}

/// The type of the expression `expr` of `body`, or the first fault met on the
/// way: the function of an application is checked before its argument, and
/// the parts of an expression before the expression itself.
pub open spec fn check_tree(body: BodyTree, expr: Expr) -> Result<TyTree, TypeFault>
    recommends
        body.wf(),
        expr.raw < body.exprs.len(),
    decreases expr.raw,
    when body.wf() && expr.raw < body.exprs.len()
{
    match body.exprs[expr.raw as int] {
        ExprNode::Var(binder) => match body.binders[binder.raw as int] {
            BinderNode::Val(ty) => Ok(ty),
            BinderNode::Ty => Err(TypeFault::TypeBinderAsValue { expr }),
        },
        ExprNode::Lit(Lit::Bool(_)) => Ok(TyTree::Scalar(Scalar::Bool)),
        ExprNode::Lit(Lit::Int(_)) => Ok(TyTree::Scalar(Scalar::Int)),
        ExprNode::Lambda(binder, inner) => match check_tree(body, inner) {
            Ok(inner_ty) => match body.binders[binder.raw as int] {
                BinderNode::Val(param) => Ok(TyTree::Fn(Box::new(param), Box::new(inner_ty))),
                BinderNode::Ty => Ok(TyTree::ForAll(Box::new(inner_ty))),
            },
            Err(fault) => Err(fault),
        },
        ExprNode::App(f, x) => match check_tree(body, f) {
            Ok(TyTree::Fn(param, ret)) => match check_tree(body, x) {
                Ok(arg) => if arg == *param {
                    Ok(*ret)
                } else {
                    Err(TypeFault::TypeMismatch { expr, expected: *param, actual: arg })
                },
                Err(fault) => Err(fault),
            },
            Ok(TyTree::ForAll(quantified)) => match body.exprs[x.raw as int] {
                ExprNode::Type(instance) => Ok(subst_tree(*quantified, instance, 0)),
                _ => Err(TypeFault::ExpectedTypeArgument { expr }),
            },
            Ok(found) => Err(TypeFault::NotCallable { expr, found }),
            Err(fault) => Err(fault),
        },
        ExprNode::Type(_) => Err(TypeFault::TypeInExprPosition { expr }),
    }
}

/// Whether `result`, read in `interner`, is `expected`.
pub open spec fn agrees(
    result: Result<Ty, TypeError>,
    expected: Result<TyTree, TypeFault>,
    interner: Interner,
) -> bool {
    match result {
        Ok(ty) => interner.has(ty) && expected == Ok::<TyTree, TypeFault>(interner.tree(ty)),
        Err(error) => error.typed_in(interner) && expected == Err::<TyTree, TypeFault>(
            error.fault(interner),
        ),
    }
}

/// Checking is idempotent: where a body is checked twice with one interner,
/// the second time after the first, both checks give the same result, with
/// the same handles.
pub proof fn lemma_check_idempotent(
    body: BodyData,
    start: Interner,
    middle: Interner,
    end: Interner,
    first: Result<Ty, TypeError>,
    second: Result<Ty, TypeError>,
)
    requires
        body.typed_in(start),
        middle.extends(start),
        end.extends(middle),
        end.wf(),
        agrees(first, check_tree(body.tree(start), body.expr), middle),
        agrees(second, check_tree(body.tree(middle), body.expr), end),
    ensures
        first == second,
{
    body.lemma_tree_stable(start, middle);
    match (first, second) {
        (Ok(a), Ok(b)) => {
            end.lemma_interning_sound(a, b);
        },
        (Err(a), Err(b)) => {
            match (a, b) {
                (
                    TypeError::TypeMismatch { expr: e1, expected: x1, actual: a1 },
                    TypeError::TypeMismatch { expr: e2, expected: x2, actual: a2 },
                ) => {
                    end.lemma_interning_sound(x1, x2);
                    end.lemma_interning_sound(a1, a2);
                },
                (
                    TypeError::NotCallable { expr: e1, found: f1 },
                    TypeError::NotCallable { expr: e2, found: f2 },
                ) => {
                    end.lemma_interning_sound(f1, f2);
                },
                _ => {},
            }
        },
        _ => {},
    }
}

/// A body to be checked.
pub struct TypecheckCtxt {
    pub body: BodyData,
}

impl TypecheckCtxt {
    /// The type of the body.
    pub fn check_body(&self, interner: &mut Interner) -> (result: Result<Ty, TypeError>)
        requires
            old(interner).wf(),
            self.body.wf(*old(interner)),
        ensures
            final(interner).wf(),
            final(interner).extends(*old(interner)),
            agrees(
                result,
                check_tree(self.body.tree(*old(interner)), self.body.expr),
                *final(interner),
            ),
    {
        self.check_expr(self.body.expr, interner)
    }

    /// The data of a binder of the body.
    pub fn binder(&self, binder: Binder) -> (data: &BinderData)
        requires
            binder.raw < self.body.binder_seq().len(),
        ensures
            *data == self.body.binder_seq()[binder.raw as int],
    {
        self.body.binder(binder)
    }

    /// The declared type of a value binder; `None` for a type binder.
    pub fn check_binder(&self, binder: Binder) -> (declared: Option<Ty>)
        requires
            binder.raw < self.body.binder_seq().len(),
        ensures
            declared == match self.body.binder_seq()[binder.raw as int] {
                BinderData::Val(ty) => Some(ty),
                BinderData::Ty => None,
            },
    {
        match self.binder(binder) {
            BinderData::Val(ty) => Some(*ty),
            BinderData::Ty => None,
        }
    }

    /// The type of the expression `expr` of the body.
    pub fn check_expr(&self, expr: Expr, interner: &mut Interner) -> (result: Result<
        Ty,
        TypeError,
    >)
        requires
            old(interner).wf(),
            self.body.wf(*old(interner)),
            expr.raw < self.body.expr_seq().len(),
        ensures
            final(interner).wf(),
            final(interner).extends(*old(interner)),
            agrees(result, check_tree(self.body.tree(*old(interner)), expr), *final(interner)),
        decreases expr.raw,
    {
        let ghost start = *interner;
        match *self.body.index(expr) {
            ExprData::Var(binder) => {
                match self.check_binder(binder) {
                    Some(ty) => Ok(ty),
                    None => Err(TypeError::TypeBinderAsValue { expr }),
                }
            },
            ExprData::Lit(lit) => match lit {
                Lit::Bool(_) => Ok(TyKind::Scalar(Scalar::Bool).intern(interner)),
                Lit::Int(_) => Ok(TyKind::Scalar(Scalar::Int).intern(interner)),
            },
            ExprData::Lambda(binder, inner) => {
                let inner_ty = match self.check_expr(inner, interner) {
                    Ok(ty) => ty,
                    Err(error) => {
                        return Err(error);
                    },
                };
                match *self.binder(binder) {
                    BinderData::Val(binder_ty) => Ok(
                        TyData::new(TyKind::Fn(binder_ty, inner_ty)).intern(interner),
                    ),
                    BinderData::Ty => Ok(TyKind::ForAll(inner_ty).intern(interner)),
                }
            },
            ExprData::App(f, x) => {
                let f_ty = match self.check_expr(f, interner) {
                    Ok(ty) => ty,
                    Err(error) => {
                        return Err(error);
                    },
                };
                proof {
                    interner.lemma_tree_of(f_ty);
                    self.body.lemma_tree_stable(start, *interner);
                }
                match *f_ty.deref(interner).kind() {
                    TyKind::Fn(param_ty, ret_ty) => {
                        let arg_ty = match self.check_expr(x, interner) {
                            Ok(ty) => ty,
                            Err(error) => {
                                return Err(error);
                            },
                        };
                        proof {
                            interner.lemma_interning_sound(arg_ty, param_ty);
                        }
                        if arg_ty != param_ty {
                            return Err(
                                TypeError::TypeMismatch {
                                    expr,
                                    expected: param_ty,
                                    actual: arg_ty,
                                },
                            );
                        }
                        Ok(ret_ty)
                    },
                    TyKind::ForAll(body_ty) => {
                        let subst = match *self.body.index(x) {
                            ExprData::Type(ty) => ty,
                            _ => {
                                return Err(TypeError::ExpectedTypeArgument { expr });
                            },
                        };
                        Ok(body_ty.substitute(&subst, interner))
                    },
                    _ => Err(TypeError::NotCallable { expr, found: f_ty }),
                }
            },
            ExprData::Type(_) => Err(TypeError::TypeInExprPosition { expr }),
        }
    }
}

} // verus!
