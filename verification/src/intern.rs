//! Hash-consing of types: structurally equal types get the same handle.
//!
//! An [`Interner`] is an explicit context. It keeps every type it has seen in
//! a table, in the order of arrival, and a handle is a position in that table.
//! A concurrent hash map from the shape of a type to its position finds a type
//! that is already there.

use vstd::prelude::*;

use dashmap::DashMap;
use rustc_hash::FxHasher;
use std::hash::BuildHasherDefault;

use crate::ty::Scalar;
use crate::ty::TyData;
use crate::ty::TyKind;
use crate::ty::TyTree;

verus! {

/// `dashmap::DashMap`, a concurrent hash map. Nothing of its inside is known
/// here.
#[verifier::external_type_specification]
#[verifier::external_body]
#[verifier::reject_recursive_types(K)]
#[verifier::reject_recursive_types(V)]
#[verifier::reject_recursive_types(S)]
pub struct ExDashMap<K, V, S>(DashMap<K, V, S>);

/// `rustc_hash::FxHasher`, the hasher of the index map.
#[verifier::external_type_specification]
#[verifier::external_body]
pub struct ExFxHasher(FxHasher);

/// `std::hash::BuildHasherDefault`, which makes a hasher by `Default`.
#[verifier::external_type_specification]
#[verifier::external_body]
#[verifier::reject_recursive_types(H)]
pub struct ExBuildHasherDefault<H>(BuildHasherDefault<H>);

/// The key under which a shape is filed: its variant, then what it holds.
pub type ShapeKey = (u8, usize, usize);

/// The map that finds a type by its shape.
pub type ShapeIndex = DashMap<ShapeKey, usize, BuildHasherDefault<FxHasher>>;

/// The entries of the map that finds a type by its shape.
pub uninterp spec fn index_entries(map: ShapeIndex) -> Map<ShapeKey, usize>;

/// `DashMap::with_hasher`, given the default Fx hasher: a map without entries.
#[verifier::external_body]
fn index_new() -> (index: ShapeIndex)
    ensures
        forall|key: ShapeKey| !index_entries(index).contains_key(key),
{
    DashMap::with_hasher(BuildHasherDefault::default())
}

/// `DashMap::get`: the value stored under `key`, copied out of the guard that
/// the map hands back, or `None` where the map has no such key.
#[verifier::external_body]
fn index_get(map: &ShapeIndex, key: &ShapeKey) -> (found: Option<usize>)
    ensures
        found == (if index_entries(*map).contains_key(*key) {
            Some(index_entries(*map)[*key])
        } else {
            None
        }),
{
    map.get(key).map(|entry| *entry)
}

/// `DashMap::insert`: afterwards `key` maps to `value` and every other key is
/// as before. The map is taken by unique reference, so that no guard into it
/// is alive during the call.
#[verifier::external_body]
fn index_insert(map: &mut ShapeIndex, key: ShapeKey, value: usize)
    ensures
        index_entries(*final(map)) == index_entries(*old(map)).insert(key, value),
{
    map.insert(key, value);
}

/// A handle to an interned value. Two handles of one interner are equal
/// exactly when the values they stand for are.
#[derive(Debug, Clone, Copy, PartialEq, Eq, Structural, Hash)]
pub struct Interned {
    index: usize,
}

/// The table of all types seen so far.
pub struct Interner {
    nodes: Vec<TyData>,
    index: ShapeIndex,
}

/// Whether every handle that `kind` mentions is a position below `bound`.
spec fn kind_below(kind: TyKind, bound: int) -> bool {
    match kind {
        TyKind::Scalar(_) => true,
        TyKind::Var(_) => true,
        TyKind::Fn(param, ret) => param.index < bound && ret.index < bound,
        TyKind::ForAll(body) => body.index < bound,
    }
}

/// The key under which the index map files a shape.
spec fn key_of(kind: TyKind) -> ShapeKey {
    match kind {
        TyKind::Scalar(Scalar::Bool) => (0u8, 0usize, 0usize),
        TyKind::Scalar(Scalar::Int) => (0u8, 1usize, 0usize),
        TyKind::Scalar(Scalar::Float) => (0u8, 2usize, 0usize),
        TyKind::Fn(param, ret) => (1u8, param.index, ret.index),
        TyKind::Var(var) => (2u8, var.0 as usize, 0usize),
        TyKind::ForAll(body) => (3u8, body.index, 0usize),
    }
}

/// The tree that position `i` of `nodes` stands for.
spec fn tree_at(nodes: Seq<TyData>, i: int) -> TyTree
    decreases i,
{
    if 0 <= i < nodes.len() && kind_below(nodes[i].kind, i) {
        match nodes[i].kind {
            TyKind::Scalar(scalar) => TyTree::Scalar(scalar),
            TyKind::Var(var) => TyTree::Var(var),
            TyKind::Fn(param, ret) => TyTree::Fn(
                Box::new(tree_at(nodes, param.index as int)),
                Box::new(tree_at(nodes, ret.index as int)),
            ),
            TyKind::ForAll(body) => TyTree::ForAll(Box::new(tree_at(nodes, body.index as int))),
        }
    } else {
        TyTree::Scalar(Scalar::Bool)
    }
}

/// Every entry mentions earlier entries only, and no entry occurs twice.
spec fn table_wf(nodes: Seq<TyData>) -> bool {
    &&& forall|i: int| 0 <= i < nodes.len() ==> kind_below(#[trigger] nodes[i].kind, i)
    &&& forall|i: int, j: int|
        0 <= i < nodes.len() && 0 <= j < nodes.len() && #[trigger] nodes[i] == #[trigger] nodes[j]
            ==> i == j
}

/// The index map holds exactly the shapes of the table, each with its position.
spec fn index_matches(nodes: Seq<TyData>, entries: Map<ShapeKey, usize>) -> bool {
    &&& forall|i: int|
        0 <= i < nodes.len() ==> entries.contains_key(#[trigger] key_of(nodes[i].kind))
            && entries[key_of(nodes[i].kind)] == i
    &&& forall|k: ShapeKey| #[trigger]
        entries.contains_key(k) ==> entries[k] < nodes.len() && key_of(
            nodes[entries[k] as int].kind,
        ) == k
}

proof fn lemma_tree_prefix(a: Seq<TyData>, b: Seq<TyData>, i: int)
    requires
        a.is_prefix_of(b),
        0 <= i < a.len(),
    ensures
        tree_at(a, i) == tree_at(b, i),
    decreases i,
{
    if kind_below(a[i].kind, i) {
        match a[i].kind {
            TyKind::Fn(param, ret) => {
                lemma_tree_prefix(a, b, param.index as int);
                lemma_tree_prefix(a, b, ret.index as int);
            },
            TyKind::ForAll(body) => {
                lemma_tree_prefix(a, b, body.index as int);
            },
            _ => {},
        }
    }
}

proof fn lemma_tree_injective_at(nodes: Seq<TyData>, i: int, j: int)
    requires
        table_wf(nodes),
        0 <= i < nodes.len(),
        0 <= j < nodes.len(),
        tree_at(nodes, i) == tree_at(nodes, j),
    ensures
        i == j,
    decreases i,
{
    match (nodes[i].kind, nodes[j].kind) {
        (TyKind::Fn(param_i, ret_i), TyKind::Fn(param_j, ret_j)) => {
            lemma_tree_injective_at(nodes, param_i.index as int, param_j.index as int);
            lemma_tree_injective_at(nodes, ret_i.index as int, ret_j.index as int);
        },
        (TyKind::ForAll(body_i), TyKind::ForAll(body_j)) => {
            lemma_tree_injective_at(nodes, body_i.index as int, body_j.index as int);
        },
        _ => {},
    }
}

impl Interned {
    /// Interns `data`: the handle of the entry that equals `data`, which is
    /// added to the table if it is not there yet.
    pub fn intern(data: TyData, interner: &mut Interner) -> (ty: Interned)
        requires
            old(interner).wf(),
            old(interner).admits(data),
        ensures
            final(interner).wf(),
            final(interner).extends(*old(interner)),
            final(interner).has(ty),
            final(interner).data(ty) == data,
            final(interner).tree(ty) == old(interner).kind_tree(data.kind),
            final(interner).len() == old(interner).len() + (if old(interner).holds(data) {
                0int
            } else {
                1int
            }),
    {
        let key = shape_key(&data.kind);
        match index_get(&interner.index, &key) {
            Some(index) => {
                Interned { index }
            },
            None => {
                let index = interner.nodes.len();
                interner.nodes.push(data);
                index_insert(&mut interner.index, key, index);
                proof {
                    let old_nodes = old(interner).nodes@;
                    let nodes = interner.nodes@;
                    assert forall|t: Interned| #[trigger] old(interner).has(t) implies interner.has(
                        t,
                    ) && interner.data(t) == old(interner).data(t) && interner.tree(t) == old(
                        interner,
                    ).tree(t) by {
                        lemma_tree_prefix(old_nodes, nodes, t.index as int);
                    }
                }
                Interned { index }
            },
        }
    }

    /// The data that this handle stands for in `interner`.
    pub fn deref<'a>(&self, interner: &'a Interner) -> (data: &'a TyData)
        requires
            interner.has(*self),
        ensures
            *data == interner.data(*self),
    {
        &interner.nodes[self.index]
    }
}

/// What can be interned.
pub trait Intern: Sized {
    /// The type data that this value is interned as.
    spec fn data(self) -> TyData;

    /// Interns this value: the handle that every value with the same data
    /// gets from `interner`.
    fn intern(self, interner: &mut Interner) -> (ty: Interned)
        requires
            old(interner).wf(),
            old(interner).admits(self.data()),
        ensures
            final(interner).wf(),
            final(interner).extends(*old(interner)),
            final(interner).has(ty),
            final(interner).data(ty) == self.data(),
            final(interner).tree(ty) == old(interner).kind_tree(self.data().kind),
            final(interner).len() == old(interner).len() + (if old(interner).holds(self.data()) {
                0int
            } else {
                1int
            }),
    ;
}

impl Intern for TyData {
    open spec fn data(self) -> TyData {
        self
    }

    fn intern(self, interner: &mut Interner) -> (ty: Interned) {
        Interned::intern(self, interner)
    }
}

/// The key of a shape, computed.
fn shape_key(kind: &TyKind) -> (key: ShapeKey)
    ensures
        key == key_of(*kind),
{
    match kind {
        TyKind::Scalar(Scalar::Bool) => (0u8, 0usize, 0usize),
        TyKind::Scalar(Scalar::Int) => (0u8, 1usize, 0usize),
        TyKind::Scalar(Scalar::Float) => (0u8, 2usize, 0usize),
        TyKind::Fn(param, ret) => (1u8, param.index, ret.index),
        TyKind::Var(var) => (2u8, var.0 as usize, 0usize),
        TyKind::ForAll(body) => (3u8, body.index, 0usize),
    }
}

impl Interner {
    /// The table is consistent: entries mention earlier entries only, none
    /// occurs twice, and the index map finds each of them.
    pub closed spec fn wf(self) -> bool {
        &&& table_wf(self.nodes@)
        &&& index_matches(self.nodes@, index_entries(self.index))
    }

    /// The number of distinct types interned so far.
    pub closed spec fn len(self) -> nat {
        self.nodes@.len()
    }

    /// Whether `ty` is a handle that this interner has given out.
    pub closed spec fn has(self, ty: Interned) -> bool {
        ty.index < self.nodes@.len()
    }

    /// The data behind a handle.
    pub closed spec fn data(self, ty: Interned) -> TyData {
        self.nodes@[ty.index as int]
    }

    /// The type that a handle stands for, as a tree.
    pub closed spec fn tree(self, ty: Interned) -> TyTree {
        tree_at(self.nodes@, ty.index as int)
    }

    /// Whether the table holds an entry equal to `data`.
    pub closed spec fn holds(self, data: TyData) -> bool {
        exists|i: int| 0 <= i < self.nodes@.len() && self.nodes@[i] == data
    }

    /// Whether `data` may be interned here: the handles it mentions are
    /// handles of this interner.
    pub open spec fn admits(self, data: TyData) -> bool {
        match data.kind {
            TyKind::Scalar(_) => true,
            TyKind::Var(_) => true,
            TyKind::Fn(param, ret) => self.has(param) && self.has(ret),
            TyKind::ForAll(body) => self.has(body),
        }
    }

    /// Whether this interner has grown out of `old`: every handle of `old` is
    /// a handle of this one and stands for the same type.
    pub open spec fn extends(self, old: Interner) -> bool {
        forall|ty: Interned| #[trigger]
            old.has(ty) ==> self.has(ty) && self.data(ty) == old.data(ty) && self.tree(ty)
                == old.tree(ty)
    }

    /// The tree of a shape whose parts are handles of this interner.
    pub open spec fn kind_tree(self, kind: TyKind) -> TyTree {
        match kind {
            TyKind::Scalar(scalar) => TyTree::Scalar(scalar),
            TyKind::Var(var) => TyTree::Var(var),
            TyKind::Fn(param, ret) => TyTree::Fn(
                Box::new(self.tree(param)),
                Box::new(self.tree(ret)),
            ),
            TyKind::ForAll(body) => TyTree::ForAll(Box::new(self.tree(body))),
        }
    }

    /// The tree of a handle is the tree of its data, whose parts are handles
    /// of this interner too.
    pub proof fn lemma_tree_of(self, ty: Interned)
        requires
            self.wf(),
            self.has(ty),
        ensures
            self.admits(self.data(ty)),
            self.tree(ty) == self.kind_tree(self.data(ty).kind),
    {
    }

    /// Interning is sound: two handles of one interner are equal exactly when
    /// they stand for the same type, and exactly when their data are equal.
    pub proof fn lemma_interning_sound(self, a: Interned, b: Interned)
        requires
            self.wf(),
            self.has(a),
            self.has(b),
        ensures
            (self.tree(a) == self.tree(b)) == (a == b),
            (self.data(a) == self.data(b)) == (a == b),
    {
        if self.tree(a) == self.tree(b) {
            lemma_tree_injective_at(self.nodes@, a.index as int, b.index as int);
        }
        if self.data(a) == self.data(b) {
        }
    }

    /// Interning is canonical over time: a handle given out earlier and a
    /// handle given out later are the same handle where they stand for the
    /// same type, or for the same data.
    pub proof fn lemma_interning_canonical(self, earlier: Interner, a: Interned, b: Interned)
        requires
            self.wf(),
            self.extends(earlier),
            earlier.has(a),
            self.has(b),
            earlier.tree(a) == self.tree(b) || earlier.data(a) == self.data(b),
        ensures
            a == b,
    {
        self.lemma_interning_sound(a, b);
    }

    /// An interner that has seen no type yet.
    pub fn new() -> (interner: Interner)
        ensures
            interner.wf(),
            interner.len() == 0,
            forall|ty: Interned| !interner.has(ty),
    {
        Interner { nodes: Vec::new(), index: index_new() }
    }

    /// Whether `ty` is a handle of this interner.
    pub fn contains(&self, ty: Interned) -> (known: bool)
        ensures
            known == self.has(ty),
    {
        ty.index < self.nodes.len()
    }

    /// Whether `data` may be interned here.
    pub fn accepts(&self, data: &TyData) -> (ok: bool)
        ensures
            ok == self.admits(*data),
    {
        match data.kind {
            TyKind::Scalar(_) => true,
            TyKind::Var(_) => true,
            TyKind::Fn(param, ret) => self.contains(param) && self.contains(ret),
            TyKind::ForAll(body) => self.contains(body),
        }
    }

    /// The number of distinct types interned so far.
    pub fn count(&self) -> (n: usize)
        ensures
            n == self.len(),
    {
        self.nodes.len()
    }
}

} // verus!
