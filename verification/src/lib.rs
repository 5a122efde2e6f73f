//! A small typed intermediate language: surface syntax, lowering to an
//! arena-backed representation with interned de Bruijn types, and a type
//! checker for it.

pub mod ast;
pub mod cirparser;
pub mod grammar;
pub mod intern;
pub mod ir;
pub mod lower;
pub mod lowering;
pub mod name;
pub mod parse;
pub mod path;
pub mod show;
pub mod span;
pub mod subst;
pub mod ty;
pub mod typecheck;

pub use crate::intern::Intern;
pub use crate::intern::Interned;
pub use crate::intern::Interner;
pub use crate::parse::parse_body;
pub use crate::parse::parse_ty;
