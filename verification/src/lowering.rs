//! What lowering means: the type that a surface type stands for, and the
//! arenas that a surface expression is laid out in, as functions of the
//! syntax and of what is in scope.

use vstd::prelude::*;

use crate::ast::BinderModel;
use crate::ast::ExprModel;
use crate::ast::ItemKindModel;
use crate::ast::ItemModel;
use crate::ast::LiteralKind;
use crate::ast::TypeModel;
use crate::ast::ValueDefModel;
use crate::ast::VarModel;
use crate::ir::Binder;
use crate::ir::BinderNode;
use crate::ir::BodyTree;
use crate::ir::Expr;
use crate::ir::ExprNode;
use crate::ir::Lit;
use crate::name::NameModel;
use crate::ty::Debruijn;
use crate::ty::TyTree;

verus! {

/// A lowering error as the contracts speak of it.
pub enum LowerFault {
    UnboundIdentifier { name: NameModel },
    Unsupported,
    TooLarge,
}

/// The number of entries that lie above the topmost entry equal to `text`,
/// in the search that has found no such entry among the topmost `skipped`.
pub open spec fn depth_from(stack: Seq<Seq<u8>>, text: Seq<u8>, skipped: nat) -> Option<nat>
    decreases stack.len() - skipped,
{
    if skipped >= stack.len() {
        None
    } else if stack[stack.len() - 1 - skipped] == text {
        Some(skipped)
    } else {
        depth_from(stack, text, skipped + 1)
    }
}

/// The de Bruijn depth of the type variable `text` under the quantifiers
/// `foralls`: the number of quantifiers that lie between a reference and the
/// innermost quantifier of that name. `None` where no quantifier has the name.
pub open spec fn depth_of(foralls: Seq<Seq<u8>>, text: Seq<u8>) -> Option<nat> {
    depth_from(foralls, text, 0)
}

/// A search that has skipped the innermost quantifier goes on among the
/// quantifiers around it.
pub proof fn lemma_depth_from_inner(
    foralls: Seq<Seq<u8>>,
    name: Seq<u8>,
    text: Seq<u8>,
    skipped: nat,
)
    ensures
        depth_from(foralls.push(name), text, skipped + 1) == (match depth_from(
            foralls,
            text,
            skipped,
        ) {
            Some(depth) => Some(depth + 1),
            None => None,
        }),
    decreases foralls.len() - skipped,
{
    if skipped < foralls.len() {
        if foralls[foralls.len() - 1 - skipped] != text {
            lemma_depth_from_inner(foralls, name, text, skipped + 1);
        }
    }
}

/// Under a quantifier, the variable of its name has depth 0, and every other
/// variable is one deeper than it is outside.
pub proof fn lemma_depth_under_quantifier(foralls: Seq<Seq<u8>>, name: Seq<u8>, text: Seq<u8>)
    ensures
        depth_of(foralls.push(name), text) == (if name == text {
            Some(0nat)
        } else {
            match depth_of(foralls, text) {
                Some(depth) => Some(depth + 1),
                None => None,
            }
        }),
{
    lemma_depth_from_inner(foralls, name, text, 0);
}

/// The type that a surface type stands for under the quantifiers `foralls`,
/// or the first fault met when reading it from left to right.
pub open spec fn lower_ty_tree(ty: TypeModel, foralls: Seq<Seq<u8>>) -> Result<TyTree, LowerFault>
    decreases ty,
{
    match ty {
        TypeModel::Var(name) => match depth_of(foralls, name.text) {
            Some(depth) => if depth <= u32::MAX {
                Ok(TyTree::Var(Debruijn(depth as u32)))
            } else {
                Err(LowerFault::TooLarge)
            },
            None => Err(LowerFault::UnboundIdentifier { name }),
        },
        TypeModel::Scalar(scalar) => Ok(TyTree::Scalar(scalar)),
        TypeModel::Fn(param, ret) => match lower_ty_tree(*param, foralls) {
            Ok(param_tree) => match lower_ty_tree(*ret, foralls) {
                Ok(ret_tree) => Ok(TyTree::Fn(Box::new(param_tree), Box::new(ret_tree))),
                Err(fault) => Err(fault),
            },
            Err(fault) => Err(fault),
        },
        TypeModel::ForAll(name, body) => match lower_ty_tree(*body, foralls.push(name.text)) {
            Ok(body_tree) => Ok(TyTree::ForAll(Box::new(body_tree))),
            Err(fault) => Err(fault),
        },
    }
}

/// `ty` with every name, bound or free, spelled as `spelling` says.
pub open spec fn respell(ty: TypeModel, spelling: spec_fn(Seq<u8>) -> Seq<u8>) -> TypeModel
    decreases ty,
{
    match ty {
        TypeModel::Var(name) => TypeModel::Var(NameModel { text: spelling(name.text), ..name }),
        TypeModel::Scalar(scalar) => ty,
        TypeModel::Fn(param, ret) => TypeModel::Fn(
            Box::new(respell(*param, spelling)),
            Box::new(respell(*ret, spelling)),
        ),
        TypeModel::ForAll(name, body) => TypeModel::ForAll(
            NameModel { text: spelling(name.text), ..name },
            Box::new(respell(*body, spelling)),
        ),
    }
}

/// A spelling that keeps distinct names distinct.
pub open spec fn keeps_apart(spelling: spec_fn(Seq<u8>) -> Seq<u8>) -> bool {
    forall|a: Seq<u8>, b: Seq<u8>| #[trigger] spelling(a) == #[trigger] spelling(b) ==> a == b
}

/// The depth of a variable does not depend on how the names are spelled.
pub proof fn lemma_depth_respelled(
    stack: Seq<Seq<u8>>,
    text: Seq<u8>,
    skipped: nat,
    spelling: spec_fn(Seq<u8>) -> Seq<u8>,
)
    requires
        keeps_apart(spelling),
    ensures
        depth_from(stack.map_values(spelling), spelling(text), skipped) == depth_from(
            stack,
            text,
            skipped,
        ),
    decreases stack.len() - skipped,
{
    if skipped < stack.len() {
        let at = stack.len() - 1 - skipped;
        if stack[at] != text {
            lemma_depth_respelled(stack, text, skipped + 1, spelling);
        }
    }
}

/// The spelling of names is erased: a type lowers to the same tree however
/// its names and the quantifiers in scope are spelled, as long as distinct
/// names stay distinct. A type that cannot be lowered still cannot.
pub proof fn lemma_spelling_erased(
    ty: TypeModel,
    foralls: Seq<Seq<u8>>,
    spelling: spec_fn(Seq<u8>) -> Seq<u8>,
)
    requires
        keeps_apart(spelling),
    ensures
        match lower_ty_tree(ty, foralls) {
            Ok(tree) => lower_ty_tree(respell(ty, spelling), foralls.map_values(spelling)) == Ok::<
                TyTree,
                LowerFault,
            >(tree),
            Err(_) => lower_ty_tree(respell(ty, spelling), foralls.map_values(spelling)) is Err,
        },
    decreases ty,
{
    match ty {
        TypeModel::Var(name) => {
            lemma_depth_respelled(foralls, name.text, 0, spelling);
        },
        TypeModel::Scalar(_) => {},
        TypeModel::Fn(param, ret) => {
            lemma_spelling_erased(*param, foralls, spelling);
            lemma_spelling_erased(*ret, foralls, spelling);
        },
        TypeModel::ForAll(name, body) => {
            lemma_spelling_erased(*body, foralls.push(name.text), spelling);
            assert(foralls.push(name.text).map_values(spelling) =~= foralls.map_values(
                spelling,
            ).push(spelling(name.text)));
        },
    }
}

/// The literal that a surface literal stands for.
pub open spec fn lit_of(kind: LiteralKind) -> Lit {
    match kind {
        LiteralKind::Int(value) => Lit::Int(value),
        LiteralKind::Bool(value) => Lit::Bool(value),
    }
}

/// The binder of the topmost entry of `scope` whose name is `text`, in the
/// search that has found no such entry among the topmost `skipped`.
pub open spec fn binder_from(scope: Seq<(Seq<u8>, Binder)>, text: Seq<u8>, skipped: nat) -> Option<
    Binder,
>
    decreases scope.len() - skipped,
{
    if skipped >= scope.len() {
        None
    } else if scope[scope.len() - 1 - skipped].0 == text {
        Some(scope[scope.len() - 1 - skipped].1)
    } else {
        binder_from(scope, text, skipped + 1)
    }
}

/// The binder that the value variable `text` refers to: the innermost binder
/// of that name in scope, so that an inner binder shadows an outer one.
pub open spec fn binder_of(scope: Seq<(Seq<u8>, Binder)>, text: Seq<u8>) -> Option<Binder> {
    binder_from(scope, text, 0)
}

/// A search that has skipped the innermost binder goes on in the scope
/// without it.
pub proof fn lemma_binder_from_inner(
    scope: Seq<(Seq<u8>, Binder)>,
    entry: (Seq<u8>, Binder),
    text: Seq<u8>,
    skipped: nat,
)
    ensures
        binder_from(scope.push(entry), text, skipped + 1) == binder_from(scope, text, skipped),
    decreases scope.len() - skipped,
{
    if skipped < scope.len() {
        if scope[scope.len() - 1 - skipped].0 != text {
            lemma_binder_from_inner(scope, entry, text, skipped + 1);
        }
    }
}

/// Shadowing: a binder that comes into scope is what its own name refers to
/// from then on, and every other name refers to what it referred to before.
/// When the binder goes out of scope again, so does every name.
pub proof fn lemma_shadowing(
    scope: Seq<(Seq<u8>, Binder)>,
    name: Seq<u8>,
    binder: Binder,
    text: Seq<u8>,
)
    ensures
        binder_of(scope.push((name, binder)), text) == (if name == text {
            Some(binder)
        } else {
            binder_of(scope, text)
        }),
        scope.push((name, binder)).drop_last() == scope,
{
    lemma_binder_from_inner(scope, (name, binder), text, 0);
}

/// The state of the lowering of one body.
pub struct LowerState {
    /// The expressions allocated so far.
    pub exprs: Seq<ExprNode>,
    /// The binders allocated so far.
    pub binders: Seq<BinderNode>,
    /// The value binders in scope with their names, the innermost last.
    pub vals: Seq<(Seq<u8>, Binder)>,
    /// The names of the type binders in scope, the innermost last.
    pub foralls: Seq<Seq<u8>>,
}

/// A state together with an expression allocated in it.
pub struct Lowered {
    pub state: LowerState,
    pub expr: Expr,
}

/// A state together with an expression that is yet to be allocated in it.
pub struct Bound {
    pub state: LowerState,
    pub node: ExprNode,
}

impl LowerState {
    /// The state before anything is lowered.
    pub open spec fn empty() -> LowerState {
        LowerState { exprs: Seq::empty(), binders: Seq::empty(), vals: Seq::empty(), foralls: Seq::empty() }
    }

    /// Appends `node` to the expressions, where its position fits in 32 bits.
    pub open spec fn append(self, node: ExprNode) -> Result<Lowered, LowerFault> {
        if self.exprs.len() <= u32::MAX {
            Ok(
                Lowered {
                    state: LowerState { exprs: self.exprs.push(node), ..self },
                    expr: Expr { raw: self.exprs.len() as u32 },
                },
            )
        } else {
            Err(LowerFault::TooLarge)
        }
    }

    /// Every expression refers to binders of the state and to expressions
    /// allocated before itself, the scope refers to binders of the state, and
    /// every position fits in 32 bits.
    pub open spec fn wf(self) -> bool {
        &&& self.exprs.len() <= u32::MAX + 1
        &&& self.binders.len() <= u32::MAX + 1
        &&& forall|i: int|
            0 <= i < self.exprs.len() ==> (#[trigger] self.exprs[i]).refers_back(
                i,
                self.binders.len() as int,
            )
        &&& forall|i: int| 0 <= i < self.vals.len() ==> (#[trigger] self.vals[i]).1.raw < self.binders.len()
    }
}

/// The lowering of the expression `expr` in the state `state`: the state
/// with the expressions and binders of `expr` appended, each part before the
/// expression it is part of, and the position of `expr` itself; or the first
/// fault met when reading `expr` from left to right.
pub open spec fn lower_expr_tree(expr: ExprModel, state: LowerState) -> Result<Lowered, LowerFault>
    decreases expr, 0nat,
{
    match expr {
        ExprModel::Var(var) => match var {
            VarModel::Val(name) => match binder_of(state.vals, name.text) {
                Some(binder) => state.append(ExprNode::Var(binder)),
                None => Err(LowerFault::UnboundIdentifier { name }),
            },
            VarModel::Ty(_) => Err(LowerFault::Unsupported),
        },
        ExprModel::Lit(lit) => state.append(ExprNode::Lit(lit_of(lit.kind))),
        ExprModel::Lambda(binder, body) => match lower_binder_tree(binder, *body, state) {
            Ok(bound) => bound.state.append(bound.node),
            Err(fault) => Err(fault),
        },
        ExprModel::App(f, x) => match lower_expr_tree(*f, state) {
            Ok(fun) => match lower_expr_tree(*x, fun.state) {
                Ok(arg) => arg.state.append(ExprNode::App(fun.expr, arg.expr)),
                Err(fault) => Err(fault),
            },
            Err(fault) => Err(fault),
        },
        ExprModel::Case => Err(LowerFault::Unsupported),
        ExprModel::Type(ty) => match lower_ty_tree(ty, state.foralls) {
            Ok(tree) => state.append(ExprNode::Type(tree)),
            Err(fault) => Err(fault),
        },
    }
}

/// The lowering of a lambda up to its own allocation: a new binder, which is
/// in scope while `body` is lowered and out of scope again afterwards.
pub open spec fn lower_binder_tree(binder: BinderModel, body: ExprModel, state: LowerState) -> Result<
    Bound,
    LowerFault,
>
    decreases body, 1nat,
{
    match binder {
        BinderModel::Val(name, ty) => match lower_ty_tree(ty, state.foralls) {
            Ok(declared) => if state.binders.len() <= u32::MAX {
                let id = Binder { raw: state.binders.len() as u32 };
                let inner = LowerState {
                    binders: state.binders.push(BinderNode::Val(declared)),
                    vals: state.vals.push((name.text, id)),
                    ..state
                };
                match lower_expr_tree(body, inner) {
                    Ok(lowered) => Ok(
                        Bound {
                            state: LowerState { vals: state.vals, ..lowered.state },
                            node: ExprNode::Lambda(id, lowered.expr),
                        },
                    ),
                    Err(fault) => Err(fault),
                }
            } else {
                Err(LowerFault::TooLarge)
            },
            Err(fault) => Err(fault),
        },
        BinderModel::Ty(name) => if state.binders.len() <= u32::MAX {
            let id = Binder { raw: state.binders.len() as u32 };
            let inner = LowerState {
                binders: state.binders.push(BinderNode::Ty),
                foralls: state.foralls.push(name.text),
                ..state
            };
            match lower_expr_tree(body, inner) {
                Ok(lowered) => Ok(
                    Bound {
                        state: LowerState { foralls: state.foralls, ..lowered.state },
                        node: ExprNode::Lambda(id, lowered.expr),
                    },
                ),
                Err(fault) => Err(fault),
            }
        } else {
            Err(LowerFault::TooLarge)
        },
    }
}

/// The body that `expr` lowers to on its own, under the quantifiers
/// `foralls` and with no value binder in scope.
pub open spec fn lower_body_tree(expr: ExprModel, foralls: Seq<Seq<u8>>) -> Result<
    BodyTree,
    LowerFault,
> {
    match lower_expr_tree(expr, LowerState { foralls, ..LowerState::empty() }) {
        Ok(lowered) => Ok(
            BodyTree { root: lowered.expr, exprs: lowered.state.exprs, binders: lowered.state.binders },
        ),
        Err(fault) => Err(fault),
    }
}

/// Lowering keeps the scopes and what was allocated before, keeps a well
/// formed state well formed, and allocates the expression it returns last.
pub proof fn lemma_lower_expr(expr: ExprModel, state: LowerState)
    requires
        state.wf(),
    ensures
        match lower_expr_tree(expr, state) {
            Ok(lowered) => {
                &&& lowered.state.wf()
                &&& lowered.state.vals == state.vals
                &&& lowered.state.foralls == state.foralls
                &&& state.exprs.is_prefix_of(lowered.state.exprs)
                &&& state.binders.is_prefix_of(lowered.state.binders)
                &&& lowered.expr.raw == lowered.state.exprs.len() - 1
            },
            Err(_) => true,
        },
    decreases expr, 0nat,
{
    match expr {
        ExprModel::Var(var) => match var {
            VarModel::Val(name) => {
                lemma_binder_in_scope(state.vals, name.text, 0);
            },
            VarModel::Ty(_) => {},
        },
        ExprModel::Lit(lit) => {},
        ExprModel::Lambda(binder, body) => {
            lemma_lower_binder(binder, *body, state);
        },
        ExprModel::App(f, x) => {
            lemma_lower_expr(*f, state);
            match lower_expr_tree(*f, state) {
                Ok(fun) => {
                    lemma_lower_expr(*x, fun.state);
                },
                Err(_) => {},
            }
        },
        ExprModel::Case => {},
        ExprModel::Type(ty) => {},
    }
}

/// What `lemma_lower_expr` says, for a lambda up to its own allocation.
pub proof fn lemma_lower_binder(binder: BinderModel, body: ExprModel, state: LowerState)
    requires
        state.wf(),
    ensures
        match lower_binder_tree(binder, body, state) {
            Ok(bound) => {
                &&& bound.state.wf()
                &&& bound.state.vals == state.vals
                &&& bound.state.foralls == state.foralls
                &&& state.exprs.is_prefix_of(bound.state.exprs)
                &&& state.binders.is_prefix_of(bound.state.binders)
                &&& bound.node matches ExprNode::Lambda(id, inner) && id.raw < bound.state.binders.len()
                    && inner.raw < bound.state.exprs.len()
            },
            Err(_) => true,
        },
    decreases body, 1nat,
{
    match binder {
        BinderModel::Val(name, ty) => match lower_ty_tree(ty, state.foralls) {
            Ok(declared) => if state.binders.len() <= u32::MAX {
                let id = Binder { raw: state.binders.len() as u32 };
                let inner = LowerState {
                    binders: state.binders.push(BinderNode::Val(declared)),
                    vals: state.vals.push((name.text, id)),
                    ..state
                };
                lemma_lower_expr(body, inner);
            },
            Err(_) => {},
        },
        BinderModel::Ty(name) => if state.binders.len() <= u32::MAX {
            let inner = LowerState {
                binders: state.binders.push(BinderNode::Ty),
                foralls: state.foralls.push(name.text),
                ..state
            };
            lemma_lower_expr(body, inner);
        },
    }
}

/// A binder found in a scope is an entry of that scope.
pub proof fn lemma_binder_in_scope(scope: Seq<(Seq<u8>, Binder)>, text: Seq<u8>, skipped: nat)
    ensures
        match binder_from(scope, text, skipped) {
            Some(binder) => exists|i: int| 0 <= i < scope.len() && #[trigger] scope[i] == (text, binder),
            None => true,
        },
    decreases scope.len() - skipped,
{
    if skipped < scope.len() {
        if scope[scope.len() - 1 - skipped].0 == text {
        } else {
            lemma_binder_in_scope(scope, text, skipped + 1);
        }
    }
}

/// Why the body `expr` cannot be added to a context that holds `bodies`
/// bodies; `None` where it can.
pub open spec fn body_fault(expr: ExprModel, foralls: Seq<Seq<u8>>, bodies: nat) -> Option<
    LowerFault,
> {
    match lower_body_tree(expr, foralls) {
        Err(fault) => Some(fault),
        Ok(_) => if bodies > u32::MAX {
            Some(LowerFault::TooLarge)
        } else {
            None
        },
    }
}

/// Why the definition `model` cannot be added to a context that holds
/// `bodies` bodies and `defs` value definitions; `None` where it can. The
/// declared type is lowered first, then the body, and only then is room
/// asked for.
pub open spec fn def_fault(model: ValueDefModel, foralls: Seq<Seq<u8>>, bodies: nat, defs: nat) -> Option<
    LowerFault,
> {
    match lower_ty_tree(model.ty, foralls) {
        Err(fault) => Some(fault),
        Ok(_) => match lower_body_tree(model.expr, foralls) {
            Err(fault) => Some(fault),
            Ok(_) => if bodies > u32::MAX || defs > u32::MAX {
                Some(LowerFault::TooLarge)
            } else {
                None
            },
        },
    }
}

/// Why an item cannot be added; `None` where it can. A data definition has
/// no lowering.
pub open spec fn item_fault(item: ItemModel, foralls: Seq<Seq<u8>>, bodies: nat, defs: nat) -> Option<
    LowerFault,
> {
    match item.kind {
        ItemKindModel::ValueDef(model) => def_fault(model, foralls, bodies, defs),
        ItemKindModel::DataDef => Some(LowerFault::Unsupported),
    }
}

/// The fault of the first of `items` that cannot be added, each item being
/// added to what the items before it have left; `None` where all can.
pub open spec fn file_fault(items: Seq<ItemModel>, foralls: Seq<Seq<u8>>, bodies: nat, defs: nat) -> Option<
    LowerFault,
>
    decreases items.len(),
{
    if items.len() == 0 {
        None
    } else {
        match item_fault(items[0], foralls, bodies, defs) {
            Some(fault) => Some(fault),
            None => file_fault(items.drop_first(), foralls, bodies + 1, defs + 1),
        }
    }
}

} // verus!
