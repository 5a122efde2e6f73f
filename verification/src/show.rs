//! Types as text, for diagnostics: every handle is written as `Interned(..)`
//! around what it stands for.

use vstd::prelude::*;
use vstd::string::StringExecFns;

use crate::intern::Interned;
use crate::intern::Interner;
use crate::ty::Scalar;
use crate::ty::TyData;
use crate::ty::TyKind;
use crate::ty::TyTree;

verus! {

/// The character of a decimal digit.
pub open spec fn digit_char(digit: nat) -> char {
    if digit == 0 {
        '0'
    } else if digit == 1 {
        '1'
    } else if digit == 2 {
        '2'
    } else if digit == 3 {
        '3'
    } else if digit == 4 {
        '4'
    } else if digit == 5 {
        '5'
    } else if digit == 6 {
        '6'
    } else if digit == 7 {
        '7'
    } else if digit == 8 {
        '8'
    } else {
        '9'
    }
}

/// A number in decimal digits, without leading zeros.
pub open spec fn decimal_text(number: nat) -> Seq<char>
    decreases number,
{
    if number < 10 {
        seq![digit_char(number)]
    } else {
        decimal_text(number / 10).push(digit_char(number % 10))
    }
}

/// A handle as text: `Interned(..)` around how its type is written.
pub open spec fn shown(ty: TyTree) -> Seq<char>
    decreases ty, 1nat,
{
    "Interned("@ + shown_kind(ty) + ")"@
}

/// A type as text: a scalar by its name, a function as `(P -> R)`, a
/// variable as `Debruijn(n)`, a quantified type as `∀T`.
pub open spec fn shown_kind(ty: TyTree) -> Seq<char>
    decreases ty, 0nat,
{
    match ty {
        TyTree::Scalar(Scalar::Bool) => "Bool"@,
        TyTree::Scalar(Scalar::Int) => "Int"@,
        TyTree::Scalar(Scalar::Float) => "Float"@,
        TyTree::Fn(param, ret) => "("@ + shown(*param) + " -> "@ + shown(*ret) + ")"@,
        TyTree::Var(var) => "Debruijn("@ + decimal_text(var.0 as nat) + ")"@,
        TyTree::ForAll(body) => "\u{2200}"@ + shown(*body),
    }
}

fn digit_text(digit: u32) -> (text: &'static str)
    requires
        digit < 10,
    ensures
        text@ == seq![digit_char(digit as nat)],
{
    proof {
        reveal_strlit("0");
        reveal_strlit("1");
        reveal_strlit("2");
        reveal_strlit("3");
        reveal_strlit("4");
        reveal_strlit("5");
        reveal_strlit("6");
        reveal_strlit("7");
        reveal_strlit("8");
        reveal_strlit("9");
    }
    let text = if digit == 0 {
        "0"
    } else if digit == 1 {
        "1"
    } else if digit == 2 {
        "2"
    } else if digit == 3 {
        "3"
    } else if digit == 4 {
        "4"
    } else if digit == 5 {
        "5"
    } else if digit == 6 {
        "6"
    } else if digit == 7 {
        "7"
    } else if digit == 8 {
        "8"
    } else {
        "9"
    };
    text
}

fn decimal(number: u32) -> (text: String)
    ensures
        text@ == decimal_text(number as nat),
    decreases number,
{
    if number < 10 {
        String::from_str(digit_text(number))
    } else {
        let mut text = decimal(number / 10);
        text.append(digit_text(number % 10));
        text
    }
}

impl Interned {
    /// This handle as text.
    pub fn show(&self, interner: &Interner) -> (text: String)
        requires
            interner.wf(),
            interner.has(*self),
        ensures
            text@ == shown(interner.tree(*self)),
        decreases interner.tree(*self), 1nat,
    {
        proof {
            interner.lemma_tree_of(*self);
        }
        let mut text = String::from_str("Interned(");
        text.append(self.deref(interner).kind().show(interner).as_str());
        text.append(")");
        text
    }
}

impl TyData {
    /// This data as text: its kind.
    pub fn show(&self, interner: &Interner) -> (text: String)
        requires
            interner.wf(),
            interner.admits(*self),
        ensures
            text@ == shown_kind(interner.kind_tree(self.kind)),
    {
        self.kind.show(interner)
    }
}

impl TyKind {
    /// This shape as text.
    pub fn show(&self, interner: &Interner) -> (text: String)
        requires
            interner.wf(),
            interner.admits(TyData { kind: *self }),
        ensures
            text@ == shown_kind(interner.kind_tree(*self)),
        decreases interner.kind_tree(*self), 0nat,
    {
        match self {
            TyKind::Scalar(scalar) => match scalar {
                Scalar::Bool => String::from_str("Bool"),
                Scalar::Int => String::from_str("Int"),
                Scalar::Float => String::from_str("Float"),
            },
            TyKind::Fn(param, ret) => {
                proof {
                    let whole = interner.kind_tree(*self);
                    assert(*whole->Fn_0 == interner.tree(*param));
                    assert(*whole->Fn_1 == interner.tree(*ret));
                }
                let mut text = String::from_str("(");
                text.append(param.show(interner).as_str());
                text.append(" -> ");
                text.append(ret.show(interner).as_str());
                text.append(")");
                text
            },
            TyKind::Var(var) => {
                let mut text = String::from_str("Debruijn(");
                text.append(decimal(var.index()).as_str());
                text.append(")");
                text
            },
            TyKind::ForAll(body) => {
                proof {
                    let whole = interner.kind_tree(*self);
                    assert(*whole->ForAll_0 == interner.tree(*body));
                }
                let mut text = String::from_str("\u{2200}");
                text.append(body.show(interner).as_str());
                text
            },
        }
    }
}

} // verus!
