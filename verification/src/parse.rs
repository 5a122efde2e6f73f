//! From a text to the resolved representation in one step.

use vstd::prelude::*;
use vstd::string::StringSliceAdditionalSpecFns;

use crate::cirparser;
use crate::cirparser::outcome;
use crate::cirparser::SyntaxError;
use crate::grammar;
use crate::intern::Interner;
use crate::ir::BodyData;
use crate::ir::BodyTree;
use crate::lower::BodyLowerCtxt;
use crate::lower::LowerCtxt;
use crate::lower::LowerError;
use crate::lowering::lower_body_tree;
use crate::lowering::lower_ty_tree;
use crate::lowering::LowerFault;
use crate::lowering::LowerState;
use crate::ty::Ty;
use crate::ty::TyTree;

verus! {

/// Why a text has no resolved representation.
#[derive(Debug, PartialEq, Eq)]
pub enum ParseError {
    /// The text is not what the grammar reads.
    Syntax(SyntaxError),
    /// The text was read, and what it says could not be lowered.
    Lower(LowerError),
}

/// A parse error as the contracts speak of it.
pub enum ParseFault {
    Syntax(SyntaxError),
    Lower(LowerFault),
}

impl View for ParseError {
    type V = ParseFault;

    open spec fn view(&self) -> ParseFault {
        match self {
            ParseError::Syntax(error) => ParseFault::Syntax(*error),
            ParseError::Lower(error) => ParseFault::Lower(error@),
        }
    }
}

/// The body that a text stands for: the text read as an expression and
/// lowered with nothing in scope.
pub open spec fn body_of_text(input: Seq<u8>) -> Result<BodyTree, ParseFault> {
    match outcome(input, grammar::expr(input, 0)) {
        Ok(expr) => match lower_body_tree(expr, Seq::empty()) {
            Ok(body) => Ok(body),
            Err(fault) => Err(ParseFault::Lower(fault)),
        },
        Err(error) => Err(ParseFault::Syntax(error)),
    }
}

/// The type that a text stands for: the text read as a type and lowered
/// with no quantifier in scope.
pub open spec fn ty_of_text(input: Seq<u8>) -> Result<TyTree, ParseFault> {
    match outcome(input, grammar::ty(input, 0)) {
        Ok(ty) => match lower_ty_tree(ty, Seq::empty()) {
            Ok(tree) => Ok(tree),
            Err(fault) => Err(ParseFault::Lower(fault)),
        },
        Err(error) => Err(ParseFault::Syntax(error)),
    }
}

/// Reads `s` as an expression and lowers it to a body.
pub fn parse_body(s: &str, interner: &mut Interner) -> (result: Result<BodyData, ParseError>)
    requires
        old(interner).wf(),
    ensures
        final(interner).wf(),
        final(interner).extends(*old(interner)),
        match result {
            Ok(body) => body.wf(*final(interner)) && body_of_text(s.spec_bytes()) == Ok::<
                BodyTree,
                ParseFault,
            >(body.tree(*final(interner))),
            Err(error) => body_of_text(s.spec_bytes()) == Err::<BodyTree, ParseFault>(error@),
        },
{
    let expr = match cirparser::expr(s) {
        Ok(expr) => expr,
        Err(error) => {
            return Err(ParseError::Syntax(error));
        },
    };
    let mut lcx = LowerCtxt::new();
    let bcx = BodyLowerCtxt::new();
    match bcx.lower_data(&mut lcx, &expr, interner) {
        Ok(body) => Ok(body),
        Err(error) => Err(ParseError::Lower(error)),
    }
}

/// Reads `s` as a type and lowers it.
pub fn parse_ty(s: &str, interner: &mut Interner) -> (result: Result<Ty, ParseError>)
    requires
        old(interner).wf(),
    ensures
        final(interner).wf(),
        final(interner).extends(*old(interner)),
        match result {
            Ok(ty) => final(interner).has(ty) && ty_of_text(s.spec_bytes()) == Ok::<
                TyTree,
                ParseFault,
            >(final(interner).tree(ty)),
            Err(error) => ty_of_text(s.spec_bytes()) == Err::<TyTree, ParseFault>(error@),
        },
{
    let ty = match cirparser::ty(s) {
        Ok(ty) => ty,
        Err(error) => {
            return Err(ParseError::Syntax(error));
        },
    };
    let mut lcx = LowerCtxt::new();
    match lcx.lower_ty(&ty, interner) {
        Ok(lowered) => Ok(lowered),
        Err(error) => Err(ParseError::Lower(error)),
    }
}

} // verus!
