//! Substitution of a type for the variable that a quantifier binds.

use vstd::prelude::*;

use crate::intern::Interner;
use crate::ty::Debruijn;
use crate::ty::Ty;
use crate::ty::TyKind;
use crate::ty::TyTree;

verus! {

/// The type that is put in the place of a variable.
pub type Subst = Ty;

/// `ty` with `replacement` in the place of every variable whose index is
/// `cutoff`. Under a quantifier the cutoff is one more, so that the variables
/// of inner quantifiers stay as they are.
pub open spec fn subst_tree(ty: TyTree, replacement: TyTree, cutoff: nat) -> TyTree
    decreases ty,
{
    match ty {
        TyTree::Scalar(_) => ty,
        TyTree::Fn(param, ret) => TyTree::Fn(
            Box::new(subst_tree(*param, replacement, cutoff)),
            Box::new(subst_tree(*ret, replacement, cutoff)),
        ),
        TyTree::Var(var) => if var.0 == cutoff {
            replacement
        } else {
            ty
        },
        TyTree::ForAll(body) => TyTree::ForAll(
            Box::new(subst_tree(*body, replacement, cutoff + 1)),
        ),
    }
}

/// No variable has an index beyond the range of `u32`, so a substitution for
/// such an index changes nothing.
pub proof fn lemma_subst_beyond(ty: TyTree, replacement: TyTree, cutoff: nat)
    requires
        cutoff > u32::MAX,
    ensures
        subst_tree(ty, replacement, cutoff) == ty,
    decreases ty,
{
    match ty {
        TyTree::Fn(param, ret) => {
            lemma_subst_beyond(*param, replacement, cutoff);
            lemma_subst_beyond(*ret, replacement, cutoff);
        },
        TyTree::ForAll(body) => {
            lemma_subst_beyond(*body, replacement, cutoff + 1);
        },
        _ => {},
    }
}

/// Types in which a type can be substituted for the innermost variable.
pub trait Substitute: Sized {
    /// Whether this value and `subst` belong to `interner`.
    spec fn subst_admitted(&self, subst: &Subst, interner: &Interner) -> bool;

    /// Whether `result` in `after` is this value in `before` with `subst` in
    /// the place of the innermost variable.
    spec fn subst_result(
        &self,
        subst: &Subst,
        before: &Interner,
        after: &Interner,
        result: &Self,
    ) -> bool;

    fn substitute(&self, subst: &Subst, interner: &mut Interner) -> (result: Self)
        requires
            old(interner).wf(),
            self.subst_admitted(subst, old(interner)),
        ensures
            final(interner).wf(),
            final(interner).extends(*old(interner)),
            self.subst_result(subst, old(interner), final(interner), &result),
    ;
}

impl Substitute for Ty {
    open spec fn subst_admitted(&self, subst: &Subst, interner: &Interner) -> bool {
        interner.has(*self) && interner.has(*subst)
    }

    open spec fn subst_result(
        &self,
        subst: &Subst,
        before: &Interner,
        after: &Interner,
        result: &Ty,
    ) -> bool {
        after.has(*result) && after.tree(*result) == subst_tree(
            before.tree(*self),
            before.tree(*subst),
            0,
        )
    }

    fn substitute(&self, subst: &Subst, interner: &mut Interner) -> (result: Ty) {
        substitute_ty(self, subst, Debruijn::inner(), interner)
    }
}

/// Substitutes `subst` for the variable with index `cutoff` in `ty`.
pub fn substitute_ty(ty: &Ty, subst: &Subst, cutoff: Debruijn, interner: &mut Interner) -> (result:
    Ty)
    requires
        old(interner).wf(),
        old(interner).has(*ty),
        old(interner).has(*subst),
    ensures
        final(interner).wf(),
        final(interner).extends(*old(interner)),
        final(interner).has(result),
        final(interner).tree(result) == subst_tree(
            old(interner).tree(*ty),
            old(interner).tree(*subst),
            cutoff.0 as nat,
        ),
    decreases old(interner).tree(*ty),
{
    proof {
        interner.lemma_tree_of(*ty);
    }
    let kind = *ty.deref(interner).kind();
    match kind {
        TyKind::Scalar(_) => *ty,
        TyKind::Fn(param, ret) => {
            let new_param = substitute_ty(&param, subst, cutoff, interner);
            let new_ret = substitute_ty(&ret, subst, cutoff, interner);
            TyKind::Fn(new_param, new_ret).intern(interner)
        },
        TyKind::Var(var) => if var.index() == cutoff.index() {
            *subst
        } else {
            *ty
        },
        TyKind::ForAll(body) => {
            if cutoff.index() < u32::MAX {
                let new_body = substitute_ty(&body, subst, cutoff.shifted_in(), interner);
                TyKind::ForAll(new_body).intern(interner)
            } else {
                proof {
                    lemma_subst_beyond(
                        interner.tree(body),
                        interner.tree(*subst),
                        cutoff.0 as nat + 1,
                    );
                }
                *ty
            }
        },
    }
}

} // verus!
