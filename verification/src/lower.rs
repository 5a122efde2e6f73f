//! Lowering: resolves the names of the surface syntax and builds the arenas
//! of a body.

use vstd::prelude::*;

use la_arena::Arena;

use crate::ast;
use crate::ast::ItemKindModel;
use crate::ast::VarModel;
use crate::ast::ValueDefModel;
use crate::intern::Interner;
use crate::ir::arena_binders;
use crate::ir::arena_bodies;
use crate::ir::arena_exprs;
use crate::ir::arena_value_defs;
use crate::ir::binders_alloc;
use crate::ir::binders_len;
use crate::ir::binders_new;
use crate::ir::bodies_alloc;
use crate::ir::bodies_get;
use crate::ir::bodies_len;
use crate::ir::bodies_new;
use crate::ir::exprs_alloc;
use crate::ir::exprs_len;
use crate::ir::exprs_new;
use crate::ir::value_defs_alloc;
use crate::ir::value_defs_get;
use crate::ir::value_defs_len;
use crate::ir::value_defs_new;
use crate::ir::Binder;
use crate::ir::BinderData;
use crate::ir::BinderNode;
use crate::ir::Body;
use crate::ir::BodyData;
use crate::ir::BodyTree;
use crate::ir::Expr;
use crate::ir::ExprData;
use crate::ir::ExprNode;
use crate::ir::Item;
use crate::ir::Items;
use crate::ir::Lit;
use crate::ir::ValueDef;
use crate::ir::ValueDefData;
use crate::lowering::binder_from;
use crate::lowering::binder_of;
use crate::lowering::body_fault;
use crate::lowering::def_fault;
use crate::lowering::depth_from;
use crate::lowering::depth_of;
use crate::lowering::file_fault;
use crate::lowering::item_fault;
use crate::lowering::lemma_lower_expr;
use crate::lowering::lower_binder_tree;
use crate::lowering::lower_body_tree;
use crate::lowering::lower_expr_tree;
use crate::lowering::lower_ty_tree;
use crate::lowering::Bound;
use crate::lowering::LowerFault;
use crate::lowering::LowerState;
use crate::lowering::Lowered;
use crate::name::Name;
use crate::ty::Debruijn;
use crate::ty::Ty;
use crate::ty::TyKind;
use crate::ty::TyTree;

verus! {

/// Why a piece of syntax could not be lowered.
#[derive(Debug, PartialEq, Eq)]
pub enum LowerError {
    /// No enclosing binder has the symbol of `name`.
    UnboundIdentifier { name: Name },
    /// The syntax is read but has no lowering: a type variable in the place
    /// of a value, a case expression, a data definition.
    Unsupported,
    /// An arena or a binder depth has outgrown its 32 bits.
    TooLarge,
}

impl View for LowerError {
    type V = LowerFault;

    open spec fn view(&self) -> LowerFault {
        match self {
            LowerError::UnboundIdentifier { name } => LowerFault::UnboundIdentifier { name: name@ },
            LowerError::Unsupported => LowerFault::Unsupported,
            LowerError::TooLarge => LowerFault::TooLarge,
        }
    }
}

/// The texts of a stack of names, the innermost last.
pub open spec fn texts(names: Seq<Name>) -> Seq<Seq<u8>> {
    Seq::new(names.len(), |i: int| names[i]@.text)
}

/// Whether `result`, read in `interner`, is `expected`.
pub open spec fn ty_agrees(
    result: Result<Ty, LowerError>,
    expected: Result<TyTree, LowerFault>,
    interner: Interner,
) -> bool {
    match result {
        Ok(ty) => interner.has(ty) && expected == Ok::<TyTree, LowerFault>(interner.tree(ty)),
        Err(error) => expected == Err::<TyTree, LowerFault>(error@),
    }
}

/// Whether `def` and `body`, read in `interner`, are what the definition
/// `model` lowers to under the quantifiers `foralls`.
pub open spec fn def_lowered(
    model: ValueDefModel,
    foralls: Seq<Seq<u8>>,
    def: ValueDefData,
    body: BodyData,
    interner: Interner,
) -> bool {
    &&& def.name@ == model.name
    &&& interner.has(def.ty)
    &&& lower_ty_tree(model.ty, foralls) == Ok::<TyTree, LowerFault>(interner.tree(def.ty))
    &&& body.wf(interner)
    &&& lower_body_tree(model.expr, foralls) == Ok::<BodyTree, LowerFault>(body.tree(interner))
}

/// The state of lowering that outlives a body: the bodies and value
/// definitions lowered so far, and the quantifiers in scope.
#[derive(Debug)]
pub struct LowerCtxt {
    bodies: Arena<BodyData>,
    value_defs: Arena<ValueDefData>,
    foralls: Vec<Name>,
}

impl LowerCtxt {
    /// The names of the quantifiers in scope, the innermost last.
    pub closed spec fn foralls(self) -> Seq<Seq<u8>> {
        texts(self.foralls@)
    }

    /// The bodies lowered so far.
    pub closed spec fn bodies(self) -> Seq<BodyData> {
        arena_bodies(self.bodies)
    }

    /// The value definitions lowered so far.
    pub closed spec fn value_defs(self) -> Seq<ValueDefData> {
        arena_value_defs(self.value_defs)
    }

    /// A context that holds nothing, with no quantifier in scope.
    pub fn new() -> (lcx: LowerCtxt)
        ensures
            lcx.foralls() == Seq::<Seq<u8>>::empty(),
            lcx.bodies().len() == 0,
            lcx.value_defs().len() == 0,
    {
        let lcx = LowerCtxt {
            bodies: bodies_new(),
            value_defs: value_defs_new(),
            foralls: Vec::new(),
        };
        lcx
    }

    /// Lowers a type: resolves its variables to de Bruijn indices and interns
    /// it. The quantifiers in scope are the same afterwards, whatever the result.
    pub fn lower_ty(&mut self, ty: &ast::Type, interner: &mut Interner) -> (result: Result<
        Ty,
        LowerError,
    >)
        requires
            old(interner).wf(),
        ensures
            final(interner).wf(),
            final(interner).extends(*old(interner)),
            final(self).foralls() == old(self).foralls(),
            final(self).bodies() == old(self).bodies(),
            final(self).value_defs() == old(self).value_defs(),
            ty_agrees(result, lower_ty_tree(ty@, old(self).foralls()), *final(interner)),
        decreases ty,
    {
        let kind = match ty {
            ast::Type::Var(var) => match self.lower_ty_var(var) {
                Ok(index) => TyKind::Var(index),
                Err(error) => {
                    return Err(error);
                },
            },
            ast::Type::Scalar(scalar) => TyKind::Scalar(*scalar),
            ast::Type::Fn(param, ret) => {
                let param_ty = match self.lower_ty(param, interner) {
                    Ok(lowered) => lowered,
                    Err(error) => {
                        return Err(error);
                    },
                };
                let ret_ty = match self.lower_ty(ret, interner) {
                    Ok(lowered) => lowered,
                    Err(error) => {
                        return Err(error);
                    },
                };
                TyKind::Fn(param_ty, ret_ty)
            },
            ast::Type::ForAll(var, body) => {
                self.enter_forall(var);
                let lowered = self.lower_ty(body, interner);
                self.exit_forall();
                match lowered {
                    Ok(body_ty) => TyKind::ForAll(body_ty),
                    Err(error) => {
                        return Err(error);
                    },
                }
            },
        };
        Ok(kind.intern(interner))
    }

    /// The body at `body`.
    pub fn body(&self, body: Body) -> (data: &BodyData)
        requires
            body.raw < self.bodies().len(),
        ensures
            *data == self.bodies()[body.raw as int],
    {
        bodies_get(&self.bodies, body)
    }

    /// The value definition at `def`.
    pub fn value_def(&self, def: ValueDef) -> (data: &ValueDefData)
        requires
            def.raw < self.value_defs().len(),
        ensures
            *data == self.value_defs()[def.raw as int],
    {
        value_defs_get(&self.value_defs, def)
    }

    /// Lowers the items of a file in their order and stops at the first that
    /// cannot be lowered. Every item lowered adds one value definition and
    /// one body to the context.
    pub fn lower_source_file(&mut self, file: &ast::SourceFile, interner: &mut Interner) -> (result:
        Result<Items, LowerError>)
        requires
            old(interner).wf(),
        ensures
            final(interner).wf(),
            final(interner).extends(*old(interner)),
            final(self).foralls() == old(self).foralls(),
            old(self).bodies().is_prefix_of(final(self).bodies()),
            old(self).value_defs().is_prefix_of(final(self).value_defs()),
            match result {
                Ok(lowered) => {
                    &&& file_fault(
                        file@,
                        old(self).foralls(),
                        old(self).bodies().len(),
                        old(self).value_defs().len(),
                    ) is None
                    &&& lowered.items@.len() == file@.len()
                    &&& final(self).bodies().len() == old(self).bodies().len() + file@.len()
                    &&& final(self).value_defs().len() == old(self).value_defs().len() + file@.len()
                    &&& forall|i: int|
                        0 <= i < file@.len() ==> {
                            &&& (#[trigger] lowered.items@[i]) == Item::ValueDef(
                                ValueDef { raw: (old(self).value_defs().len() + i) as u32 },
                            )
                            &&& final(self).value_defs()[old(self).value_defs().len() + i].body.raw
                                == old(self).bodies().len() + i
                            &&& file@[i].kind matches ItemKindModel::ValueDef(model) && def_lowered(
                                model,
                                old(self).foralls(),
                                final(self).value_defs()[old(self).value_defs().len() + i],
                                final(self).bodies()[old(self).bodies().len() + i],
                                *final(interner),
                            )
                        }
                },
                Err(error) => file_fault(
                    file@,
                    old(self).foralls(),
                    old(self).bodies().len(),
                    old(self).value_defs().len(),
                ) == Some(error@),
            },
    {
        let mut items: Vec<Item> = Vec::new();
        let mut i: usize = 0;
        let ghost foralls = self.foralls();
        let ghost bodies = self.bodies();
        let ghost defs = self.value_defs();
        assert(file@.subrange(0, file@.len() as int) =~= file@);
        while i < file.items.len()
            invariant
                interner.wf(),
                interner.extends(*old(interner)),
                foralls == old(self).foralls(),
                bodies == old(self).bodies(),
                defs == old(self).value_defs(),
                self.foralls() == foralls,
                bodies.is_prefix_of(self.bodies()),
                defs.is_prefix_of(self.value_defs()),
                i <= file.items@.len(),
                file@.len() == file.items@.len(),
                items@.len() == i,
                self.bodies().len() == bodies.len() + i,
                self.value_defs().len() == defs.len() + i,
                file_fault(file@, foralls, bodies.len(), defs.len()) == file_fault(
                    file@.subrange(i as int, file@.len() as int),
                    foralls,
                    (bodies.len() + i) as nat,
                    (defs.len() + i) as nat,
                ),
                forall|k: int|
                    0 <= k < i ==> {
                        &&& (#[trigger] items@[k]) == Item::ValueDef(
                            ValueDef { raw: (defs.len() + k) as u32 },
                        )
                        &&& self.value_defs()[defs.len() + k].body.raw == bodies.len() + k
                        &&& file@[k].kind matches ItemKindModel::ValueDef(model) && def_lowered(
                            model,
                            foralls,
                            self.value_defs()[defs.len() + k],
                            self.bodies()[bodies.len() + k],
                            *interner,
                        )
                    },
            decreases file.items@.len() - i,
        {
            let ghost rest = file@.subrange(i as int, file@.len() as int);
            let ghost before = *self;
            let ghost grown = *interner;
            assert(rest.drop_first() =~= file@.subrange(i + 1, file@.len() as int));
            let item = match self.lower_item(&file.items[i], interner) {
                Ok(item) => item,
                Err(error) => {
                    return Err(error);
                },
            };
            items.push(item);
            proof {
                assert forall|k: int| 0 <= k < i implies {
                    &&& (#[trigger] items@[k]) == Item::ValueDef(
                        ValueDef { raw: (defs.len() + k) as u32 },
                    )
                    &&& self.value_defs()[defs.len() + k].body.raw == bodies.len() + k
                    &&& file@[k].kind matches ItemKindModel::ValueDef(model) && def_lowered(
                        model,
                        foralls,
                        self.value_defs()[defs.len() + k],
                        self.bodies()[bodies.len() + k],
                        *interner,
                    )
                } by {
                    before.bodies()[bodies.len() + k].lemma_tree_stable(grown, *interner);
                }
            }
            i += 1;
        }
        Ok(Items { items })
    }

    /// Lowers an item: a value definition. A data definition has no lowering.
    pub fn lower_item(&mut self, item: &ast::Item, interner: &mut Interner) -> (result: Result<
        Item,
        LowerError,
    >)
        requires
            old(interner).wf(),
        ensures
            final(interner).wf(),
            final(interner).extends(*old(interner)),
            final(self).foralls() == old(self).foralls(),
            match result {
                Ok(lowered) => {
                    &&& item_fault(
                        item@,
                        old(self).foralls(),
                        old(self).bodies().len(),
                        old(self).value_defs().len(),
                    ) is None
                    &&& lowered == Item::ValueDef(
                        ValueDef { raw: old(self).value_defs().len() as u32 },
                    )
                    &&& old(self).value_defs().len() <= u32::MAX
                    &&& final(self).value_defs().len() == old(self).value_defs().len() + 1
                    &&& final(self).value_defs().drop_last() == old(self).value_defs()
                    &&& final(self).bodies().len() == old(self).bodies().len() + 1
                    &&& final(self).bodies().drop_last() == old(self).bodies()
                    &&& final(self).value_defs().last().body.raw == old(self).bodies().len()
                    &&& item@.kind matches ItemKindModel::ValueDef(model) && def_lowered(
                        model,
                        old(self).foralls(),
                        final(self).value_defs().last(),
                        final(self).bodies().last(),
                        *final(interner),
                    )
                },
                Err(error) => {
                    &&& item_fault(
                        item@,
                        old(self).foralls(),
                        old(self).bodies().len(),
                        old(self).value_defs().len(),
                    ) == Some(error@)
                    &&& final(self).value_defs() == old(self).value_defs()
                    &&& final(self).bodies() == old(self).bodies()
                },
            },
    {
        match &item.kind {
            ast::ItemKind::ValueDef(def) => match self.lower_value_def(def, interner) {
                Ok(id) => Ok(Item::ValueDef(id)),
                Err(error) => Err(error),
            },
            ast::ItemKind::DataDef(_) => Err(LowerError::Unsupported),
        }
    }

    /// Lowers a value definition: its declared type, then its body, and adds
    /// both to the context. Where that fails the context holds what it held.
    pub fn lower_value_def(&mut self, value_def: &ast::ValueDef, interner: &mut Interner) -> (result:
        Result<ValueDef, LowerError>)
        requires
            old(interner).wf(),
        ensures
            final(interner).wf(),
            final(interner).extends(*old(interner)),
            final(self).foralls() == old(self).foralls(),
            match result {
                Ok(id) => {
                    &&& def_fault(
                        value_def@,
                        old(self).foralls(),
                        old(self).bodies().len(),
                        old(self).value_defs().len(),
                    ) is None
                    &&& id.raw == old(self).value_defs().len()
                    &&& final(self).value_defs().len() == old(self).value_defs().len() + 1
                    &&& final(self).value_defs().drop_last() == old(self).value_defs()
                    &&& final(self).bodies().len() == old(self).bodies().len() + 1
                    &&& final(self).bodies().drop_last() == old(self).bodies()
                    &&& final(self).value_defs().last().body.raw == old(self).bodies().len()
                    &&& def_lowered(
                        value_def@,
                        old(self).foralls(),
                        final(self).value_defs().last(),
                        final(self).bodies().last(),
                        *final(interner),
                    )
                },
                Err(error) => {
                    &&& def_fault(
                        value_def@,
                        old(self).foralls(),
                        old(self).bodies().len(),
                        old(self).value_defs().len(),
                    ) == Some(error@)
                    &&& final(self).value_defs() == old(self).value_defs()
                    &&& final(self).bodies() == old(self).bodies()
                },
            },
    {
        let ty = match self.lower_ty(&value_def.ty, interner) {
            Ok(ty) => ty,
            Err(error) => {
                return Err(error);
            },
        };
        let data = match BodyLowerCtxt::new().lower_data(self, &value_def.expr, interner) {
            Ok(data) => data,
            Err(error) => {
                return Err(error);
            },
        };
        if bodies_len(&self.bodies) > u32::MAX as usize || value_defs_len(&self.value_defs)
            > u32::MAX as usize {
            return Err(LowerError::TooLarge);
        }
        let body = bodies_alloc(&mut self.bodies, data);
        let def = ValueDefData { name: value_def.name.clone(), ty, body };
        let id = value_defs_alloc(&mut self.value_defs, def);
        Ok(id)
    }

    /// Lowers an expression to a body of its own and adds it to the context.
    pub fn lower_body(&mut self, expr: &ast::Expr, interner: &mut Interner) -> (result: Result<
        Body,
        LowerError,
    >)
        requires
            old(interner).wf(),
        ensures
            final(interner).wf(),
            final(interner).extends(*old(interner)),
            final(self).foralls() == old(self).foralls(),
            final(self).value_defs() == old(self).value_defs(),
            match result {
                Ok(body) => {
                    &&& body_fault(expr@, old(self).foralls(), old(self).bodies().len()) is None
                    &&& body.raw == old(self).bodies().len()
                    &&& final(self).bodies().len() == old(self).bodies().len() + 1
                    &&& final(self).bodies().drop_last() == old(self).bodies()
                    &&& final(self).bodies().last().wf(*final(interner))
                    &&& lower_body_tree(expr@, old(self).foralls()) == Ok::<BodyTree, LowerFault>(
                        final(self).bodies().last().tree(*final(interner)),
                    )
                },
                Err(error) => {
                    &&& body_fault(expr@, old(self).foralls(), old(self).bodies().len()) == Some(
                        error@,
                    )
                    &&& final(self).bodies() == old(self).bodies()
                },
            },
    {
        BodyLowerCtxt::new().lower(self, expr, interner)
    }

    /// The de Bruijn index of a type variable: the position of the innermost
    /// quantifier of its name, counted from the innermost quantifier in scope.
    pub fn lower_ty_var(&self, var: &ast::TyVar) -> (result: Result<Debruijn, LowerError>)
        ensures
            match depth_of(self.foralls(), var.name@.text) {
                Some(depth) => if depth <= u32::MAX {
                    result == Ok::<Debruijn, LowerError>(Debruijn(depth as u32))
                } else {
                    result is Err && result->Err_0@ == LowerFault::TooLarge
                },
                None => result is Err && result->Err_0@ == (LowerFault::UnboundIdentifier {
                    name: var.name@,
                }),
            },
    {
        let len = self.foralls.len();
        let mut skipped: usize = 0;
        while skipped < len
            invariant
                len == self.foralls@.len(),
                skipped <= len,
                depth_from(self.foralls(), var.name@.text, skipped as nat) == depth_of(
                    self.foralls(),
                    var.name@.text,
                ),
            decreases len - skipped,
        {
            if self.foralls[len - 1 - skipped].same_symbol(&var.name) {
                if skipped > u32::MAX as usize {
                    return Err(LowerError::TooLarge);
                }
                return Ok(Debruijn::new(skipped as u32));
            }
            skipped += 1;
        }
        Err(LowerError::UnboundIdentifier { name: var.name.clone() })
    }

    /// Brings the quantifier `var` into scope.
    pub fn enter_forall(&mut self, var: &ast::TyVar)
        ensures
            final(self).foralls() == old(self).foralls().push(var.name@.text),
            final(self).bodies() == old(self).bodies(),
            final(self).value_defs() == old(self).value_defs(),
    {
        self.foralls.push(var.name.clone());
    }

    /// Takes the innermost quantifier out of scope.
    pub fn exit_forall(&mut self)
        requires
            old(self).foralls().len() > 0,
        ensures
            final(self).foralls() == old(self).foralls().drop_last(),
            final(self).bodies() == old(self).bodies(),
            final(self).value_defs() == old(self).value_defs(),
    {
        let _ = self.foralls.pop();
    }
}

impl Default for LowerCtxt {
    fn default() -> (lcx: LowerCtxt)
        ensures
            lcx.foralls() == Seq::<Seq<u8>>::empty(),
            lcx.bodies().len() == 0,
            lcx.value_defs().len() == 0,
    {
        LowerCtxt::new()
    }
}

/// A value binder in scope, with the name it was declared under.
#[derive(Debug)]
pub struct ScopeEntry {
    name: Name,
    binder: Binder,
}

/// The state of the lowering of one body: the arenas being filled and the
/// value binders in scope, the innermost last.
#[derive(Debug)]
pub struct BodyLowerCtxt {
    exprs: Arena<ExprData>,
    binders: Arena<BinderData>,
    binder_map: Vec<ScopeEntry>,
}

impl BodyLowerCtxt {
    /// Whether every type handle allocated so far is a handle of `interner`.
    pub closed spec fn typed_in(self, interner: Interner) -> bool {
        &&& forall|i: int|
            0 <= i < arena_exprs(self.exprs).len() ==> (#[trigger] arena_exprs(
                self.exprs,
            )[i]).typed_in(interner)
        &&& forall|i: int|
            0 <= i < arena_binders(self.binders).len() ==> (#[trigger] arena_binders(
                self.binders,
            )[i]).typed_in(interner)
    }

    /// The value binders in scope with their names, the innermost last.
    pub closed spec fn scope(self) -> Seq<(Seq<u8>, Binder)> {
        Seq::new(
            self.binder_map@.len(),
            |i: int| (self.binder_map@[i].name@.text, self.binder_map@[i].binder),
        )
    }

    /// The state as the contracts speak of it, with the quantifiers of `lcx`
    /// and the trees that the handles stand for in `interner`.
    pub closed spec fn state(self, lcx: LowerCtxt, interner: Interner) -> LowerState {
        LowerState {
            exprs: Seq::new(
                arena_exprs(self.exprs).len(),
                |i: int| arena_exprs(self.exprs)[i].node(interner),
            ),
            binders: Seq::new(
                arena_binders(self.binders).len(),
                |i: int| arena_binders(self.binders)[i].node(interner),
            ),
            vals: self.scope(),
            foralls: lcx.foralls(),
        }
    }

    /// The state reads the same in an interner that has grown.
    pub proof fn lemma_state_stable(self, lcx: LowerCtxt, old: Interner, new: Interner)
        requires
            self.typed_in(old),
            new.extends(old),
        ensures
            self.typed_in(new),
            self.state(lcx, new) == self.state(lcx, old),
    {
        assert(self.state(lcx, new).exprs =~= self.state(lcx, old).exprs);
        assert(self.state(lcx, new).binders =~= self.state(lcx, old).binders);
    }

    /// A context with empty arenas and nothing in scope.
    pub fn new() -> (bcx: BodyLowerCtxt)
        ensures
            forall|interner: Interner| bcx.typed_in(interner),
            bcx.scope() == Seq::<(Seq<u8>, Binder)>::empty(),
            forall|lcx: LowerCtxt, interner: Interner| #[trigger]
                bcx.state(lcx, interner) == (LowerState {
                    foralls: lcx.foralls(),
                    ..LowerState::empty()
                }),
    {
        let bcx = BodyLowerCtxt { exprs: exprs_new(), binders: binders_new(), binder_map: Vec::new() };
        assert(bcx.scope() =~= Seq::<(Seq<u8>, Binder)>::empty());
        assert forall|lcx: LowerCtxt, interner: Interner| #[trigger]
            bcx.state(lcx, interner) == (LowerState {
                foralls: lcx.foralls(),
                ..LowerState::empty()
            }) by {
            assert(bcx.state(lcx, interner).exprs =~= Seq::<ExprNode>::empty());
            assert(bcx.state(lcx, interner).binders =~= Seq::<BinderNode>::empty());
        }
        bcx
    }

    /// Lowers `expr` and adds the body that the arenas then hold to `lcx`.
    pub fn lower(self, lcx: &mut LowerCtxt, expr: &ast::Expr, interner: &mut Interner) -> (result:
        Result<Body, LowerError>)
        requires
            old(interner).wf(),
            self.typed_in(*old(interner)),
            self.state(*old(lcx), *old(interner)) == (LowerState {
                foralls: old(lcx).foralls(),
                ..LowerState::empty()
            }),
        ensures
            final(interner).wf(),
            final(interner).extends(*old(interner)),
            final(lcx).foralls() == old(lcx).foralls(),
            final(lcx).value_defs() == old(lcx).value_defs(),
            match result {
                Ok(body) => {
                    &&& body_fault(expr@, old(lcx).foralls(), old(lcx).bodies().len()) is None
                    &&& body.raw == old(lcx).bodies().len()
                    &&& final(lcx).bodies().len() == old(lcx).bodies().len() + 1
                    &&& final(lcx).bodies().drop_last() == old(lcx).bodies()
                    &&& final(lcx).bodies().last().wf(*final(interner))
                    &&& lower_body_tree(expr@, old(lcx).foralls()) == Ok::<BodyTree, LowerFault>(
                        final(lcx).bodies().last().tree(*final(interner)),
                    )
                },
                Err(error) => {
                    &&& body_fault(expr@, old(lcx).foralls(), old(lcx).bodies().len()) == Some(
                        error@,
                    )
                    &&& final(lcx).bodies() == old(lcx).bodies()
                },
            },
    {
        let data = match self.lower_data(lcx, expr, interner) {
            Ok(data) => data,
            Err(error) => {
                return Err(error);
            },
        };
        if bodies_len(&lcx.bodies) > u32::MAX as usize {
            return Err(LowerError::TooLarge);
        }
        let body = bodies_alloc(&mut lcx.bodies, data);
        Ok(body)
    }

    /// Lowers `expr` and hands out the body that the arenas then hold.
    pub fn lower_data(
        self,
        lcx: &mut LowerCtxt,
        expr: &ast::Expr,
        interner: &mut Interner,
    ) -> (result: Result<BodyData, LowerError>)
        requires
            old(interner).wf(),
            self.typed_in(*old(interner)),
        ensures
            final(interner).wf(),
            final(interner).extends(*old(interner)),
            final(lcx).foralls() == old(lcx).foralls(),
            final(lcx).bodies() == old(lcx).bodies(),
            final(lcx).value_defs() == old(lcx).value_defs(),
            match result {
                Ok(body) => {
                    &&& body.typed_in(*final(interner))
                    &&& self.state(*old(lcx), *old(interner)).wf() ==> body.tree(
                        *final(interner),
                    ).wf()
                    &&& match lower_expr_tree(expr@, self.state(*old(lcx), *old(interner))) {
                        Ok(lowered) => body.tree(*final(interner)) == (BodyTree {
                            root: lowered.expr,
                            exprs: lowered.state.exprs,
                            binders: lowered.state.binders,
                        }),
                        Err(_) => false,
                    }
                },
                Err(error) => lower_expr_tree(expr@, self.state(*old(lcx), *old(interner)))
                    == Err::<Lowered, LowerFault>(error@),
            },
    {
        let ghost start = self.state(*lcx, *interner);
        let mut bcx = self;
        let root = match bcx.lower_expr(lcx, expr, interner) {
            Ok(root) => root,
            Err(error) => {
                return Err(error);
            },
        };
        let BodyLowerCtxt { exprs, binders, binder_map } = bcx;
        let body = BodyData::new(root, exprs, binders);
        proof {
            if start.wf() {
                lemma_lower_expr(expr@, start);
            }
        }
        Ok(body)
    }

    /// Lowers `expr`: allocates its parts and then `expr` itself, and returns
    /// its position. The scopes are the same afterwards, whatever the result.
    pub fn lower_expr(&mut self, lcx: &mut LowerCtxt, expr: &ast::Expr, interner: &mut Interner) -> (result:
        Result<Expr, LowerError>)
        requires
            old(interner).wf(),
            old(self).typed_in(*old(interner)),
        ensures
            final(interner).wf(),
            final(interner).extends(*old(interner)),
            final(self).typed_in(*final(interner)),
            final(self).scope() == old(self).scope(),
            final(lcx).foralls() == old(lcx).foralls(),
            final(lcx).bodies() == old(lcx).bodies(),
            final(lcx).value_defs() == old(lcx).value_defs(),
            match result {
                Ok(position) => lower_expr_tree(expr@, old(self).state(*old(lcx), *old(interner)))
                    == Ok::<Lowered, LowerFault>(
                    Lowered {
                        state: final(self).state(*final(lcx), *final(interner)),
                        expr: position,
                    },
                ),
                Err(error) => lower_expr_tree(expr@, old(self).state(*old(lcx), *old(interner)))
                    == Err::<Lowered, LowerFault>(error@),
            },
        decreases expr, 0nat,
    {
        let data = match expr {
            ast::Expr::Var(var) => match self.lower_var_expr(var) {
                Ok(data) => data,
                Err(error) => {
                    return Err(error);
                },
            },
            ast::Expr::Lit(lit) => ExprData::Lit(
                match lit.kind {
                    ast::LiteralKind::Int(value) => Lit::Int(value),
                    ast::LiteralKind::Bool(value) => Lit::Bool(value),
                },
            ),
            ast::Expr::Lambda(binder, body) => match self.in_binder(lcx, binder, body, interner) {
                Ok(data) => data,
                Err(error) => {
                    return Err(error);
                },
            },
            ast::Expr::App(f, x) => {
                let fun = match self.lower_expr(lcx, f, interner) {
                    Ok(position) => position,
                    Err(error) => {
                        return Err(error);
                    },
                };
                let arg = match self.lower_expr(lcx, x, interner) {
                    Ok(position) => position,
                    Err(error) => {
                        return Err(error);
                    },
                };
                ExprData::App(fun, arg)
            },
            ast::Expr::Case(_, _) => {
                return Err(LowerError::Unsupported);
            },
            ast::Expr::Type(ty) => {
                let lowered = lcx.lower_ty(ty, interner);
                proof {
                    old(self).lemma_state_stable(*old(lcx), *old(interner), *interner);
                }
                match lowered {
                    Ok(ty) => ExprData::Type(ty),
                    Err(error) => {
                        return Err(error);
                    },
                }
            },
        };
        self.alloc_expr(data, Ghost(*lcx), Ghost(*interner))
    }

    /// Appends `data` to the expressions, where its position fits in 32 bits.
    fn alloc_expr(
        &mut self,
        data: ExprData,
        Ghost(lcx): Ghost<LowerCtxt>,
        Ghost(interner): Ghost<Interner>,
    ) -> (result: Result<Expr, LowerError>)
        requires
            old(self).typed_in(interner),
            data.typed_in(interner),
        ensures
            final(self).typed_in(interner),
            final(self).scope() == old(self).scope(),
            match result {
                Ok(position) => old(self).state(lcx, interner).append(data.node(interner)) == Ok::<
                    Lowered,
                    LowerFault,
                >(Lowered { state: final(self).state(lcx, interner), expr: position }),
                Err(error) => old(self).state(lcx, interner).append(data.node(interner)) == Err::<
                    Lowered,
                    LowerFault,
                >(error@),
            },
    {
        if exprs_len(&self.exprs) > u32::MAX as usize {
            return Err(LowerError::TooLarge);
        }
        let position = exprs_alloc(&mut self.exprs, data);
        proof {
            assert(self.state(lcx, interner).exprs =~= old(self).state(lcx, interner).exprs.push(
                data.node(interner),
            ));
        }
        Ok(position)
    }

    /// The expression that a variable lowers to: a reference to the
    /// innermost value binder of its name.
    pub fn lower_var_expr(&self, var: &ast::Var) -> (result: Result<ExprData, LowerError>)
        ensures
            match var@ {
                VarModel::Val(name) => match binder_of(self.scope(), name.text) {
                    Some(binder) => result == Ok::<ExprData, LowerError>(ExprData::Var(binder)),
                    None => result is Err && result->Err_0@ == (LowerFault::UnboundIdentifier {
                        name,
                    }),
                },
                VarModel::Ty(_) => result is Err && result->Err_0@ == LowerFault::Unsupported,
            },
    {
        match var {
            ast::Var::Val { name } => match self.lookup_var(name) {
                Some(binder) => Ok(ExprData::Var(binder)),
                None => Err(LowerError::UnboundIdentifier { name: name.clone() }),
            },
            ast::Var::Ty(_) => Err(LowerError::Unsupported),
        }
    }

    /// The innermost value binder in scope whose name is `name`.
    pub fn lookup_var(&self, name: &Name) -> (found: Option<Binder>)
        ensures
            found == binder_of(self.scope(), name@.text),
    {
        let len = self.binder_map.len();
        let mut skipped: usize = 0;
        while skipped < len
            invariant
                len == self.binder_map@.len(),
                skipped <= len,
                binder_from(self.scope(), name@.text, skipped as nat) == binder_of(
                    self.scope(),
                    name@.text,
                ),
            decreases len - skipped,
        {
            if self.binder_map[len - 1 - skipped].name.same_symbol(name) {
                return Some(self.binder_map[len - 1 - skipped].binder);
            }
            skipped += 1;
        }
        None
    }

    /// Lowers a lambda up to its own allocation: allocates the binder, brings
    /// it into scope, lowers `body` and takes the binder out of scope again,
    /// also where lowering `body` fails.
    pub fn in_binder(
        &mut self,
        lcx: &mut LowerCtxt,
        binder: &ast::Binder,
        body: &ast::Expr,
        interner: &mut Interner,
    ) -> (result: Result<ExprData, LowerError>)
        requires
            old(interner).wf(),
            old(self).typed_in(*old(interner)),
        ensures
            final(interner).wf(),
            final(interner).extends(*old(interner)),
            final(self).typed_in(*final(interner)),
            final(self).scope() == old(self).scope(),
            final(lcx).foralls() == old(lcx).foralls(),
            final(lcx).bodies() == old(lcx).bodies(),
            final(lcx).value_defs() == old(lcx).value_defs(),
            match result {
                Ok(data) => data.typed_in(*final(interner)) && lower_binder_tree(
                    binder@,
                    body@,
                    old(self).state(*old(lcx), *old(interner)),
                ) == Ok::<Bound, LowerFault>(
                    Bound {
                        state: final(self).state(*final(lcx), *final(interner)),
                        node: data.node(*final(interner)),
                    },
                ),
                Err(error) => lower_binder_tree(
                    binder@,
                    body@,
                    old(self).state(*old(lcx), *old(interner)),
                ) == Err::<Bound, LowerFault>(error@),
            },
        decreases body, 1nat,
    {
        match binder {
            ast::Binder::Val(name, ty) => {
                let declared = match lcx.lower_ty(ty, interner) {
                    Ok(declared) => declared,
                    Err(error) => {
                        return Err(error);
                    },
                };
                if binders_len(&self.binders) > u32::MAX as usize {
                    return Err(LowerError::TooLarge);
                }
                let id = binders_alloc(&mut self.binders, BinderData::Val(declared));
                self.binder_map.push(ScopeEntry { name: name.clone(), binder: id });
                proof {
                    let before = old(self).state(*old(lcx), *old(interner));
                    let inner = LowerState {
                        binders: before.binders.push(BinderNode::Val(interner.tree(declared))),
                        vals: before.vals.push((name@.text, id)),
                        ..before
                    };
                    assert(self.state(*lcx, *interner).binders =~= inner.binders);
                    assert(self.state(*lcx, *interner).vals =~= inner.vals);
                    assert(self.state(*lcx, *interner).exprs =~= inner.exprs);
                }
                let ghost entered = self.scope();
                let lowered = self.lower_expr(lcx, body, interner);
                let ghost inner = *self;
                let _ = self.binder_map.pop();
                proof {
                    assert(self.scope() =~= inner.scope().drop_last());
                    assert(entered.drop_last() =~= old(self).scope());
                }
                match lowered {
                    Ok(position) => Ok(ExprData::Lambda(id, position)),
                    Err(error) => Err(error),
                }
            },
            ast::Binder::Ty(var) => {
                if binders_len(&self.binders) > u32::MAX as usize {
                    return Err(LowerError::TooLarge);
                }
                lcx.enter_forall(var);
                let id = binders_alloc(&mut self.binders, BinderData::Ty);
                proof {
                    let before = old(self).state(*old(lcx), *old(interner));
                    let inner = LowerState {
                        binders: before.binders.push(BinderNode::Ty),
                        foralls: before.foralls.push(var.name@.text),
                        ..before
                    };
                    assert(self.state(*lcx, *interner).binders =~= inner.binders);
                }
                let ghost entered = lcx.foralls();
                let lowered = self.lower_expr(lcx, body, interner);
                lcx.exit_forall();
                proof {
                    assert(entered.drop_last() =~= old(lcx).foralls());
                }
                match lowered {
                    Ok(position) => Ok(ExprData::Lambda(id, position)),
                    Err(error) => Err(error),
                }
            },
        }
    }
}

} // verus!
