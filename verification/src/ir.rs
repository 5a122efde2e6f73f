//! The resolved representation: expressions and binders live in arenas and
//! refer to each other by position, variables refer to their binder, and
//! types are handles to interned types.

use vstd::prelude::*;

use la_arena::Arena;
use la_arena::Idx;
use la_arena::RawIdx;

use crate::intern::Interner;
use crate::name::Name;
use crate::ty::Ty;
use crate::ty::TyTree;

verus! {

/// `la_arena::Arena`, a store that appends and hands out positions.
#[verifier::external_type_specification]
#[verifier::external_body]
#[verifier::reject_recursive_types(T)]
pub struct ExArena<T>(Arena<T>);

/// The position of an expression in the arena of its body.
#[derive(Debug, Clone, Copy, PartialEq, Eq, Structural, Hash)]
pub struct Expr {
    pub raw: u32,
}

/// The position of a binder in the arena of its body.
#[derive(Debug, Clone, Copy, PartialEq, Eq, Structural, Hash)]
pub struct Binder {
    pub raw: u32,
}

impl Expr {
    /// The handle of the position `raw`.
    pub fn from_raw(raw: u32) -> (expr: Expr)
        ensures
            expr.raw == raw,
    {
        Expr { raw }
    }

    /// The position as a number.
    pub fn into_raw(self) -> (raw: u32)
        ensures
            raw == self.raw,
    {
        self.raw
    }
}

impl Binder {
    /// The handle of the position `raw`.
    pub fn from_raw(raw: u32) -> (binder: Binder)
        ensures
            binder.raw == raw,
    {
        Binder { raw }
    }

    /// The position as a number.
    pub fn into_raw(self) -> (raw: u32)
        ensures
            raw == self.raw,
    {
        self.raw
    }
}

/// The position of a body in the arena of a lowering context.
#[derive(Debug, Clone, Copy, PartialEq, Eq, Structural, Hash)]
pub struct Body {
    pub raw: u32,
}

/// The position of a value definition in the arena of a lowering context.
#[derive(Debug, Clone, Copy, PartialEq, Eq, Structural, Hash)]
pub struct ValueDef {
    pub raw: u32,
}

/// The position of a data definition.
#[derive(Debug, Clone, Copy, PartialEq, Eq, Structural, Hash)]
pub struct DataDef {
    pub raw: u32,
}

impl Body {
    /// The handle of the position `raw`.
    pub fn from_raw(raw: u32) -> (body: Body)
        ensures
            body.raw == raw,
    {
        Body { raw }
    }

    /// The position as a number.
    pub fn into_raw(self) -> (raw: u32)
        ensures
            raw == self.raw,
    {
        self.raw
    }
}

impl ValueDef {
    /// The handle of the position `raw`.
    pub fn from_raw(raw: u32) -> (def: ValueDef)
        ensures
            def.raw == raw,
    {
        ValueDef { raw }
    }

    /// The position as a number.
    pub fn into_raw(self) -> (raw: u32)
        ensures
            raw == self.raw,
    {
        self.raw
    }
}

/// The items of a source file, lowered.
#[derive(Debug, PartialEq, Eq)]
pub struct Items {
    pub items: Vec<Item>,
}

/// A lowered item.
#[derive(Debug, Clone, Copy, PartialEq, Eq, Structural)]
pub enum Item {
    ValueDef(ValueDef),
    DataDef(DataDef),
}

/// A data definition. Nothing of it is lowered yet.
#[derive(Debug, PartialEq, Eq)]
pub struct DataDefData {}

/// A value definition: its name, its declared type and its body.
#[derive(Debug, PartialEq, Eq)]
pub struct ValueDefData {
    pub name: Name,
    pub ty: Ty,
    pub body: Body,
}

/// A literal value.
#[derive(Debug, Clone, Copy, PartialEq, Eq, Structural)]
pub enum Lit {
    Bool(bool),
    Int(i64),
}

/// An expression.
#[derive(Debug, Clone, Copy, PartialEq, Eq, Structural)]
pub enum ExprData {
    /// A reference to an enclosing value binder.
    Var(Binder),
    Lit(Lit),
    /// An abstraction over a value or over a type, as the binder says.
    Lambda(Binder, Expr),
    App(Expr, Expr),
    /// A type in the place of an argument.
    Type(Ty),
}

/// What a lambda binds: a value of a declared type, or a type.
#[derive(Debug, Clone, Copy, PartialEq, Eq, Structural)]
pub enum BinderData {
    Val(Ty),
    Ty,
}

/// An expression whose types are written out as trees.
pub enum ExprNode {
    Var(Binder),
    Lit(Lit),
    Lambda(Binder, Expr),
    App(Expr, Expr),
    Type(TyTree),
}

/// A binder whose type is written out as a tree.
pub enum BinderNode {
    Val(TyTree),
    Ty,
}

impl ExprData {
    /// This expression with the trees that its handles stand for in `interner`.
    pub open spec fn node(self, interner: Interner) -> ExprNode {
        match self {
            ExprData::Var(binder) => ExprNode::Var(binder),
            ExprData::Lit(lit) => ExprNode::Lit(lit),
            ExprData::Lambda(binder, body) => ExprNode::Lambda(binder, body),
            ExprData::App(f, x) => ExprNode::App(f, x),
            ExprData::Type(ty) => ExprNode::Type(interner.tree(ty)),
        }
    }

    /// Whether the handles of this expression are handles of `interner`.
    pub open spec fn typed_in(self, interner: Interner) -> bool {
        match self {
            ExprData::Type(ty) => interner.has(ty),
            _ => true,
        }
    }
}

impl BinderData {
    /// This binder with the tree that its handle stands for in `interner`.
    pub open spec fn node(self, interner: Interner) -> BinderNode {
        match self {
            BinderData::Val(ty) => BinderNode::Val(interner.tree(ty)),
            BinderData::Ty => BinderNode::Ty,
        }
    }

    /// Whether the handle of this binder is a handle of `interner`.
    pub open spec fn typed_in(self, interner: Interner) -> bool {
        match self {
            BinderData::Val(ty) => interner.has(ty),
            BinderData::Ty => true,
        }
    }
}

/// The expressions that an arena holds, in the order of their allocation.
pub uninterp spec fn arena_exprs(arena: Arena<ExprData>) -> Seq<ExprData>;

/// The binders that an arena holds, in the order of their allocation.
pub uninterp spec fn arena_binders(arena: Arena<BinderData>) -> Seq<BinderData>;

/// `Arena::new`: an arena that holds nothing.
#[verifier::external_body]
pub(crate) fn exprs_new() -> (arena: Arena<ExprData>)
    ensures
        arena_exprs(arena).len() == 0,
{
    Arena::new()
}

/// `Arena::len`: the number of expressions allocated.
#[verifier::external_body]
pub(crate) fn exprs_len(arena: &Arena<ExprData>) -> (len: usize)
    ensures
        len == arena_exprs(*arena).len(),
{
    arena.len()
}

/// `Arena::alloc`: appends `data` and returns its position. The arena counts
/// positions in 32 bits, so the new position has to fit.
#[verifier::external_body]
pub(crate) fn exprs_alloc(arena: &mut Arena<ExprData>, data: ExprData) -> (expr: Expr)
    requires
        arena_exprs(*old(arena)).len() <= u32::MAX,
    ensures
        arena_exprs(*final(arena)) == arena_exprs(*old(arena)).push(data),
        expr.raw == arena_exprs(*old(arena)).len(),
{
    Expr { raw: arena.alloc(data).into_raw().into_u32() }
}

/// Indexing an `Arena` by `Idx`: the expression at an allocated position.
#[verifier::external_body]
pub(crate) fn exprs_get(arena: &Arena<ExprData>, expr: Expr) -> (data: &ExprData)
    requires
        expr.raw < arena_exprs(*arena).len(),
    ensures
        *data == arena_exprs(*arena)[expr.raw as int],
{
    &arena[Idx::from_raw(RawIdx::from_u32(expr.raw))]
}

/// `Arena`'s `clone`: an arena that holds the same expressions.
#[verifier::external_body]
pub(crate) fn exprs_clone(arena: &Arena<ExprData>) -> (copy: Arena<ExprData>)
    ensures
        arena_exprs(copy) == arena_exprs(*arena),
{
    arena.clone()
}

/// `Arena::new`: an arena that holds nothing.
#[verifier::external_body]
pub(crate) fn binders_new() -> (arena: Arena<BinderData>)
    ensures
        arena_binders(arena).len() == 0,
{
    Arena::new()
}

/// `Arena::len`: the number of binders allocated.
#[verifier::external_body]
pub(crate) fn binders_len(arena: &Arena<BinderData>) -> (len: usize)
    ensures
        len == arena_binders(*arena).len(),
{
    arena.len()
}

/// `Arena::alloc`: appends `data` and returns its position. The arena counts
/// positions in 32 bits, so the new position has to fit.
#[verifier::external_body]
pub(crate) fn binders_alloc(arena: &mut Arena<BinderData>, data: BinderData) -> (binder: Binder)
    requires
        arena_binders(*old(arena)).len() <= u32::MAX,
    ensures
        arena_binders(*final(arena)) == arena_binders(*old(arena)).push(data),
        binder.raw == arena_binders(*old(arena)).len(),
{
    Binder { raw: arena.alloc(data).into_raw().into_u32() }
}

/// Indexing an `Arena` by `Idx`: the binder at an allocated position.
#[verifier::external_body]
pub(crate) fn binders_get(arena: &Arena<BinderData>, binder: Binder) -> (data: &BinderData)
    requires
        binder.raw < arena_binders(*arena).len(),
    ensures
        *data == arena_binders(*arena)[binder.raw as int],
{
    &arena[Idx::from_raw(RawIdx::from_u32(binder.raw))]
}

/// `Arena`'s `clone`: an arena that holds the same binders.
#[verifier::external_body]
pub(crate) fn binders_clone(arena: &Arena<BinderData>) -> (copy: Arena<BinderData>)
    ensures
        arena_binders(copy) == arena_binders(*arena),
{
    arena.clone()
}

/// The bodies that an arena holds, in the order of their allocation.
pub uninterp spec fn arena_bodies(arena: Arena<BodyData>) -> Seq<BodyData>;

/// The value definitions that an arena holds, in the order of their allocation.
pub uninterp spec fn arena_value_defs(arena: Arena<ValueDefData>) -> Seq<ValueDefData>;

/// `Arena::new`: an arena that holds nothing.
#[verifier::external_body]
pub(crate) fn bodies_new() -> (arena: Arena<BodyData>)
    ensures
        arena_bodies(arena).len() == 0,
{
    Arena::new()
}

/// `Arena::len`: the number of bodies allocated.
#[verifier::external_body]
pub(crate) fn bodies_len(arena: &Arena<BodyData>) -> (len: usize)
    ensures
        len == arena_bodies(*arena).len(),
{
    arena.len()
}

/// `Arena::alloc`: appends `data` and returns its position. The arena counts
/// positions in 32 bits, so the new position has to fit.
#[verifier::external_body]
pub(crate) fn bodies_alloc(arena: &mut Arena<BodyData>, data: BodyData) -> (body: Body)
    requires
        arena_bodies(*old(arena)).len() <= u32::MAX,
    ensures
        arena_bodies(*final(arena)) == arena_bodies(*old(arena)).push(data),
        body.raw == arena_bodies(*old(arena)).len(),
{
    Body { raw: arena.alloc(data).into_raw().into_u32() }
}

/// Indexing an `Arena` by `Idx`: the body at an allocated position.
#[verifier::external_body]
pub(crate) fn bodies_get(arena: &Arena<BodyData>, body: Body) -> (data: &BodyData)
    requires
        body.raw < arena_bodies(*arena).len(),
    ensures
        *data == arena_bodies(*arena)[body.raw as int],
{
    &arena[Idx::from_raw(RawIdx::from_u32(body.raw))]
}

/// `Arena::new`: an arena that holds nothing.
#[verifier::external_body]
pub(crate) fn value_defs_new() -> (arena: Arena<ValueDefData>)
    ensures
        arena_value_defs(arena).len() == 0,
{
    Arena::new()
}

/// `Arena::len`: the number of value definitions allocated.
#[verifier::external_body]
pub(crate) fn value_defs_len(arena: &Arena<ValueDefData>) -> (len: usize)
    ensures
        len == arena_value_defs(*arena).len(),
{
    arena.len()
}

/// `Arena::alloc`: appends `data` and returns its position. The arena counts
/// positions in 32 bits, so the new position has to fit.
#[verifier::external_body]
pub(crate) fn value_defs_alloc(arena: &mut Arena<ValueDefData>, data: ValueDefData) -> (def:
    ValueDef)
    requires
        arena_value_defs(*old(arena)).len() <= u32::MAX,
    ensures
        arena_value_defs(*final(arena)) == arena_value_defs(*old(arena)).push(data),
        def.raw == arena_value_defs(*old(arena)).len(),
{
    ValueDef { raw: arena.alloc(data).into_raw().into_u32() }
}

/// Indexing an `Arena` by `Idx`: the value definition at an allocated position.
#[verifier::external_body]
pub(crate) fn value_defs_get(arena: &Arena<ValueDefData>, def: ValueDef) -> (data: &ValueDefData)
    requires
        def.raw < arena_value_defs(*arena).len(),
    ensures
        *data == arena_value_defs(*arena)[def.raw as int],
{
    &arena[Idx::from_raw(RawIdx::from_u32(def.raw))]
}

/// A body: an expression with the arenas that it and its parts live in.
#[derive(Debug, PartialEq, Eq)]
pub struct BodyData {
    /// The top-level expression.
    pub expr: Expr,
    pub exprs: Arena<ExprData>,
    pub binders: Arena<BinderData>,
}

/// A body whose types are written out as trees.
pub struct BodyTree {
    pub root: Expr,
    pub exprs: Seq<ExprNode>,
    pub binders: Seq<BinderNode>,
}

impl ExprNode {
    /// Whether this expression, at position `at`, refers to binders below
    /// `binders` and to expressions before itself.
    pub open spec fn refers_back(self, at: int, binders: int) -> bool {
        match self {
            ExprNode::Var(binder) => binder.raw < binders,
            ExprNode::Lit(_) => true,
            ExprNode::Lambda(binder, body) => binder.raw < binders && body.raw < at,
            ExprNode::App(f, x) => f.raw < at && x.raw < at,
            ExprNode::Type(_) => true,
        }
    }
}

impl BodyTree {
    /// Every expression refers to binders of the body and to expressions
    /// allocated before itself, the root is an expression of the body, and
    /// every position fits in 32 bits.
    pub open spec fn wf(self) -> bool {
        &&& self.root.raw < self.exprs.len()
        &&& self.exprs.len() <= u32::MAX + 1
        &&& self.binders.len() <= u32::MAX + 1
        &&& forall|i: int|
            0 <= i < self.exprs.len() ==> (#[trigger] self.exprs[i]).refers_back(
                i,
                self.binders.len() as int,
            )
    }
}

impl Clone for BodyData {
    fn clone(&self) -> (copy: BodyData)
        ensures
            copy.expr == self.expr,
            copy.expr_seq() == self.expr_seq(),
            copy.binder_seq() == self.binder_seq(),
    {
        BodyData {
            expr: self.expr,
            exprs: exprs_clone(&self.exprs),
            binders: binders_clone(&self.binders),
        }
    }
}

impl BodyData {
    /// The expressions of this body.
    pub open spec fn expr_seq(self) -> Seq<ExprData> {
        arena_exprs(self.exprs)
    }

    /// The binders of this body.
    pub open spec fn binder_seq(self) -> Seq<BinderData> {
        arena_binders(self.binders)
    }

    /// Whether every type handle in this body is a handle of `interner`.
    pub open spec fn typed_in(self, interner: Interner) -> bool {
        &&& forall|i: int|
            0 <= i < self.expr_seq().len() ==> (#[trigger] self.expr_seq()[i]).typed_in(interner)
        &&& forall|i: int|
            0 <= i < self.binder_seq().len() ==> (#[trigger] self.binder_seq()[i]).typed_in(
                interner,
            )
    }

    /// This body with the trees that its handles stand for in `interner`.
    pub open spec fn tree(self, interner: Interner) -> BodyTree {
        BodyTree {
            root: self.expr,
            exprs: Seq::new(self.expr_seq().len(), |i: int| self.expr_seq()[i].node(interner)),
            binders: Seq::new(
                self.binder_seq().len(),
                |i: int| self.binder_seq()[i].node(interner),
            ),
        }
    }

    /// Whether this body is well formed over `interner`: its handles belong to
    /// `interner`, and its tree is well formed.
    pub open spec fn wf(self, interner: Interner) -> bool {
        self.typed_in(interner) && self.tree(interner).wf()
    }

    /// The body of the expression `expr` in the arenas `exprs` and `binders`.
    pub fn new(expr: Expr, exprs: Arena<ExprData>, binders: Arena<BinderData>) -> (body: BodyData)
        ensures
            body.expr == expr,
            body.exprs == exprs,
            body.binders == binders,
    {
        BodyData { expr, exprs, binders }
    }

    /// Whether this body is well formed over `interner`.
    pub fn is_wf(&self, interner: &Interner) -> (ok: bool)
        ensures
            ok == self.wf(*interner),
    {
        let exprs = exprs_len(&self.exprs);
        let binders = binders_len(&self.binders);
        if exprs > 0 && exprs - 1 > u32::MAX as usize {
            return false;
        }
        if binders > 0 && binders - 1 > u32::MAX as usize {
            return false;
        }
        if self.expr.raw as usize >= exprs {
            return false;
        }
        let ghost tree = self.tree(*interner);
        let mut i: usize = 0;
        while i < exprs
            invariant
                i <= exprs,
                exprs == self.expr_seq().len(),
                binders == self.binder_seq().len(),
                exprs <= u32::MAX + 1,
                tree == self.tree(*interner),
                forall|j: int|
                    0 <= j < i ==> (#[trigger] self.expr_seq()[j]).typed_in(*interner),
                forall|j: int|
                    0 <= j < i ==> (#[trigger] tree.exprs[j]).refers_back(j, binders as int),
            decreases exprs - i,
        {
            let data = exprs_get(&self.exprs, Expr { raw: i as u32 });
            let fine = match *data {
                ExprData::Var(binder) => (binder.raw as usize) < binders,
                ExprData::Lit(_) => true,
                ExprData::Lambda(binder, body) => (binder.raw as usize) < binders && (
                body.raw as usize) < i,
                ExprData::App(f, x) => (f.raw as usize) < i && (x.raw as usize) < i,
                ExprData::Type(ty) => interner.contains(ty),
            };
            if !fine {
                assert(!(self.expr_seq()[i as int].typed_in(*interner) && tree.exprs[i as int].refers_back(
                    i as int,
                    binders as int,
                )));
                return false;
            }
            i += 1;
        }
        let mut k: usize = 0;
        while k < binders
            invariant
                k <= binders,
                binders == self.binder_seq().len(),
                binders <= u32::MAX + 1,
                forall|j: int|
                    0 <= j < k ==> (#[trigger] self.binder_seq()[j]).typed_in(*interner),
            decreases binders - k,
        {
            let fine = match *binders_get(&self.binders, Binder { raw: k as u32 }) {
                BinderData::Val(ty) => interner.contains(ty),
                BinderData::Ty => true,
            };
            if !fine {
                return false;
            }
            k += 1;
        }
        true
    }

    /// The expression at `index`.
    pub fn index(&self, index: Expr) -> (data: &ExprData)
        requires
            index.raw < self.expr_seq().len(),
        ensures
            *data == self.expr_seq()[index.raw as int],
    {
        exprs_get(&self.exprs, index)
    }

    /// The binder at `binder`.
    pub fn binder(&self, binder: Binder) -> (data: &BinderData)
        requires
            binder.raw < self.binder_seq().len(),
        ensures
            *data == self.binder_seq()[binder.raw as int],
    {
        binders_get(&self.binders, binder)
    }

    /// A body that grew out of one that was well formed over `old` is well
    /// formed over an interner that extends `old`, and has the same tree.
    pub proof fn lemma_tree_stable(self, old: Interner, new: Interner)
        requires
            self.typed_in(old),
            new.extends(old),
        ensures
            self.typed_in(new),
            self.tree(new) == self.tree(old),
    {
        assert(self.tree(new).exprs =~= self.tree(old).exprs);
        assert(self.tree(new).binders =~= self.tree(old).binders);
    }
}

} // verus!
