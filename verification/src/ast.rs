//! The surface syntax, as the parser produces it: names are not yet resolved.

use vstd::prelude::*;

use crate::name::Name;
use crate::name::NameModel;
use crate::span::Span;
use crate::ty::Scalar;

verus! {

/// A source file: its items, in the order of the text.
#[derive(Debug, PartialEq, Eq)]
pub struct SourceFile {
    pub items: Vec<Item>,
}

/// A node with the span of the text it was read from.
#[derive(Debug, PartialEq, Eq)]
pub struct Spanned<T> {
    pub span: Span,
    pub node: T,
}

/// An expression.
#[derive(Debug, PartialEq, Eq)]
pub enum Expr {
    Var(Var),
    Lit(Literal),
    Lambda(Binder, Box<Expr>),
    App(Box<Expr>, Box<Expr>),
    Case(Box<Expr>, Alts),
    Type(Type),
}

/// The alternatives of a case expression.
pub type Alts = Vec<Alt>;

/// One alternative of a case expression.
#[derive(Debug, PartialEq, Eq)]
pub struct Alt {
    pub pat: Pat,
    pub body: Expr,
}

/// A pattern.
#[derive(Debug, PartialEq, Eq)]
pub enum Pat {
    Variant(Path),
}

/// What a lambda binds: a value of a declared type, or a type.
#[derive(Debug, PartialEq, Eq)]
pub enum Binder {
    Val(Name, Type),
    Ty(TyVar),
}

/// A type variable.
#[derive(Debug, Clone, PartialEq, Eq)]
pub struct TyVar {
    pub name: Name,
}

/// A literal with the span it was read from.
#[derive(Debug, Clone, Copy, PartialEq, Eq, Structural)]
pub struct Literal {
    pub span: Span,
    pub kind: LiteralKind,
}

/// What a literal says.
#[derive(Debug, Clone, Copy, PartialEq, Eq, Structural)]
pub enum LiteralKind {
    Int(i64),
    Bool(bool),
}

/// A variable.
#[derive(Debug, PartialEq, Eq)]
pub enum Var {
    /// Value level variable
    Val { name: Name },
    /// Type level variable
    Ty(TyVar),
}

/// A type, with its variables by name.
#[derive(Debug, PartialEq, Eq)]
pub enum Type {
    Var(TyVar),
    Scalar(Scalar),
    Fn(Box<Type>, Box<Type>),
    ForAll(TyVar, Box<Type>),
}

/// An item with the span it was read from.
#[derive(Debug, PartialEq, Eq)]
pub struct Item {
    pub span: Span,
    pub kind: ItemKind,
}

/// What an item defines.
#[derive(Debug, PartialEq, Eq)]
pub enum ItemKind {
    ValueDef(ValueDef),
    DataDef(DataDef),
}

/// A value definition: `let name : ty = expr`.
#[derive(Debug, PartialEq, Eq)]
pub struct ValueDef {
    pub name: Name,
    pub ty: Type,
    pub expr: Expr,
}

/// The path to a data constructor. A path is one name for now.
#[derive(Debug, PartialEq, Eq)]
pub struct Path {
    pub name: Name,
}

/// A data definition.
#[derive(Debug, PartialEq, Eq)]
pub struct DataDef {
    pub name: Name,
    pub binders: Vec<TyVar>,
    pub variants: Vec<Variant>,
}

/// A variant of a data definition.
#[derive(Debug, PartialEq, Eq)]
pub struct Variant {
    pub name: Name,
    pub params: Vec<Type>,
}

/// A surface type as the contracts speak of it.
pub enum TypeModel {
    Var(NameModel),
    Scalar(Scalar),
    Fn(Box<TypeModel>, Box<TypeModel>),
    ForAll(NameModel, Box<TypeModel>),
}

/// A variable as the contracts speak of it.
pub enum VarModel {
    Val(NameModel),
    Ty(NameModel),
}

/// A binder as the contracts speak of it.
pub enum BinderModel {
    Val(NameModel, TypeModel),
    Ty(NameModel),
}

/// An expression as the contracts speak of it. Of a case expression they
/// say only that it is one.
pub enum ExprModel {
    Var(VarModel),
    Lit(Literal),
    Lambda(BinderModel, Box<ExprModel>),
    App(Box<ExprModel>, Box<ExprModel>),
    Case,
    Type(TypeModel),
}

/// A value definition as the contracts speak of it.
pub struct ValueDefModel {
    pub name: NameModel,
    pub ty: TypeModel,
    pub expr: ExprModel,
}

/// The kind of an item as the contracts speak of it. Of a data definition
/// they say only that it is one.
pub enum ItemKindModel {
    ValueDef(ValueDefModel),
    DataDef,
}

/// An item as the contracts speak of it.
pub struct ItemModel {
    pub span: Span,
    pub kind: ItemKindModel,
}

/// The model of a surface type.
pub open spec fn type_model(ty: Type) -> TypeModel
    decreases ty,
{
    match ty {
        Type::Var(var) => TypeModel::Var(var.name@),
        Type::Scalar(scalar) => TypeModel::Scalar(scalar),
        Type::Fn(param, ret) => TypeModel::Fn(
            Box::new(type_model(*param)),
            Box::new(type_model(*ret)),
        ),
        Type::ForAll(var, body) => TypeModel::ForAll(var.name@, Box::new(type_model(*body))),
    }
}

/// The model of an expression.
pub open spec fn expr_model(expr: Expr) -> ExprModel
    decreases expr,
{
    match expr {
        Expr::Var(var) => ExprModel::Var(var@),
        Expr::Lit(lit) => ExprModel::Lit(lit),
        Expr::Lambda(binder, body) => ExprModel::Lambda(binder@, Box::new(expr_model(*body))),
        Expr::App(f, x) => ExprModel::App(Box::new(expr_model(*f)), Box::new(expr_model(*x))),
        Expr::Case(_, _) => ExprModel::Case,
        Expr::Type(ty) => ExprModel::Type(ty@),
    }
}

impl View for Type {
    type V = TypeModel;

    open spec fn view(&self) -> TypeModel {
        type_model(*self)
    }
}

impl View for TyVar {
    type V = NameModel;

    open spec fn view(&self) -> NameModel {
        self.name@
    }
}

impl View for Var {
    type V = VarModel;

    open spec fn view(&self) -> VarModel {
        match self {
            Var::Val { name } => VarModel::Val(name@),
            Var::Ty(var) => VarModel::Ty(var.name@),
        }
    }
}

impl View for Binder {
    type V = BinderModel;

    open spec fn view(&self) -> BinderModel {
        match self {
            Binder::Val(name, ty) => BinderModel::Val(name@, ty@),
            Binder::Ty(var) => BinderModel::Ty(var.name@),
        }
    }
}

impl View for Expr {
    type V = ExprModel;

    open spec fn view(&self) -> ExprModel {
        expr_model(*self)
    }
}

impl View for ValueDef {
    type V = ValueDefModel;

    open spec fn view(&self) -> ValueDefModel {
        ValueDefModel { name: self.name@, ty: self.ty@, expr: self.expr@ }
    }
}

impl View for ItemKind {
    type V = ItemKindModel;

    open spec fn view(&self) -> ItemKindModel {
        match self {
            ItemKind::ValueDef(def) => ItemKindModel::ValueDef(def@),
            ItemKind::DataDef(_) => ItemKindModel::DataDef,
        }
    }
}

impl View for Item {
    type V = ItemModel;

    open spec fn view(&self) -> ItemModel {
        ItemModel { span: self.span, kind: self.kind@ }
    }
}

impl View for SourceFile {
    type V = Seq<ItemModel>;

    open spec fn view(&self) -> Seq<ItemModel> {
        Seq::new(self.items@.len(), |i: int| self.items@[i]@)
    }
}

} // verus!
