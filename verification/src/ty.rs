//! The type language: scalars, functions, de Bruijn variables and universal
//! quantification, together with its mathematical model.

use vstd::prelude::*;

use crate::intern::Intern;
use crate::intern::Interned;
use crate::intern::Interner;

verus! {

/// A handle to an interned type.
pub type Ty = Interned;

/// The built-in scalar types.
#[derive(Debug, Clone, Copy, PartialEq, Eq, Structural, Hash)]
pub enum Scalar {
    Bool,
    Int,
    Float,
}

/// A reference to a type binder, counted as the number of quantifiers that
/// stand between the reference and the quantifier that binds it.
#[derive(Debug, Clone, Copy, PartialEq, Eq, Structural, Hash, PartialOrd, Ord)]
pub struct Debruijn(pub u32);

impl Debruijn {
    /// The index that refers to the innermost enclosing quantifier.
    pub fn inner() -> (r: Debruijn)
        ensures
            r.0 == 0,
    {
        Debruijn(0)
    }

    /// The index of depth `index`.
    pub fn new(index: u32) -> (r: Debruijn)
        ensures
            r.0 == index,
    {
        Debruijn(index)
    }

    /// The depth as a number.
    pub fn index(self) -> (r: u32)
        ensures
            r == self.0,
    {
        self.0
    }

    /// Whether this index lies at or inside `other`.
    pub fn within(self, other: Debruijn) -> (r: bool)
        ensures
            r == (self.0 <= other.0),
    {
        self.0 <= other.0
    }

    /// The index that refers to the same binder from under one more quantifier.
    #[must_use]
    pub fn shifted_in(self) -> (r: Debruijn)
        requires
            self.0 < u32::MAX,
        ensures
            r.0 == self.0 + 1,
    {
        Debruijn(self.0 + 1)
    }
}

/// The shape of a type, whose parts are handles to interned types.
#[derive(Debug, Clone, Copy, PartialEq, Eq, Structural, Hash)]
pub enum TyKind {
    Scalar(Scalar),
    Fn(Ty, Ty),
    Var(Debruijn),
    ForAll(Ty),
}

impl TyKind {
    /// Interns the type of this shape.
    pub fn intern(self, interner: &mut Interner) -> (ty: Ty)
        requires
            old(interner).wf(),
            old(interner).admits(TyData { kind: self }),
        ensures
            final(interner).wf(),
            final(interner).extends(*old(interner)),
            final(interner).has(ty),
            final(interner).data(ty).kind == self,
            final(interner).tree(ty) == old(interner).kind_tree(self),
            final(interner).len() == old(interner).len() + (if old(interner).holds(
                TyData { kind: self },
            ) {
                0int
            } else {
                1int
            }),
    {
        TyData::new(self).intern(interner)
    }
}

/// The data behind a type handle.
#[derive(Debug, Clone, Copy, PartialEq, Eq, Structural, Hash)]
pub struct TyData {
    pub kind: TyKind,
}

impl TyData {
    /// The data of a type of the shape `kind`.
    pub fn new(kind: TyKind) -> (r: TyData)
        ensures
            r.kind == kind,
    {
        TyData { kind }
    }

    /// The shape of the type.
    pub fn kind(&self) -> (r: &TyKind)
        ensures
            *r == self.kind,
    {
        &self.kind
    }
}

/// A type as a tree, the model that contracts speak of.
pub enum TyTree {
    Scalar(Scalar),
    Fn(Box<TyTree>, Box<TyTree>),
    Var(Debruijn),
    ForAll(Box<TyTree>),
}

} // verus!
