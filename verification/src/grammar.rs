//! The grammar of the surface syntax, as functions from a text and a
//! position to what is read there and where reading ends.
//!
//! A rule either matches at a position, and then says what it read and where
//! it stopped, or it does not match there. Alternatives are tried in the
//! order in which they are written, and the first that matches is taken.
//! Positions count bytes. Every byte that the grammar names is ASCII, so a
//! text is read the same way byte by byte and character by character.
//!
//! Where a rule reads on behind something it has read, it tests that the
//! position has moved on and lies in the text. Every such test holds, as the
//! lemmas at the end of this file show: the tests are there to show that
//! reading ends.

use vstd::prelude::*;
use vstd::string::StringSliceAdditionalSpecFns;

use crate::ast::BinderModel;
use crate::ast::ExprModel;
use crate::ast::ItemKindModel;
use crate::ast::ItemModel;
use crate::ast::Literal;
use crate::ast::LiteralKind;
use crate::ast::TypeModel;
use crate::ast::ValueDefModel;
use crate::ast::VarModel;
use crate::name::NameModel;
use crate::span::Span;
use crate::ty::Scalar;

verus! {

/// A blank, a tab, a line feed or a carriage return.
pub open spec fn is_space(byte: u8) -> bool {
    byte == 32 || byte == 9 || byte == 10 || byte == 13
}

/// A decimal digit.
pub open spec fn is_digit(byte: u8) -> bool {
    48 <= byte <= 57
}

/// An underscore or a small letter: what a lower-case name starts with.
pub open spec fn is_lower_start(byte: u8) -> bool {
    byte == 95 || 97 <= byte <= 122
}

/// A capital letter: what an upper-case name starts with.
pub open spec fn is_upper_start(byte: u8) -> bool {
    65 <= byte <= 90
}

/// An underscore, a letter or a digit: what a name goes on with.
pub open spec fn is_word(byte: u8) -> bool {
    byte == 95 || 97 <= byte <= 122 || 65 <= byte <= 90 || 48 <= byte <= 57
}

/// The position behind the white space that starts at `pos`.
pub open spec fn skip_space(input: Seq<u8>, pos: int) -> int
    decreases input.len() - pos,
{
    if 0 <= pos < input.len() && is_space(input[pos]) {
        skip_space(input, pos + 1)
    } else {
        pos
    }
}

/// The position behind the word bytes that start at `pos`.
pub open spec fn word_end(input: Seq<u8>, pos: int) -> int
    decreases input.len() - pos,
{
    if 0 <= pos < input.len() && is_word(input[pos]) {
        word_end(input, pos + 1)
    } else {
        pos
    }
}

/// The position behind the digits that start at `pos`.
pub open spec fn digits_end(input: Seq<u8>, pos: int) -> int
    decreases input.len() - pos,
{
    if 0 <= pos < input.len() && is_digit(input[pos]) {
        digits_end(input, pos + 1)
    } else {
        pos
    }
}

/// Where `token` ends if it stands at `pos`. An empty token stands nowhere.
pub open spec fn eat(input: Seq<u8>, pos: int, token: &str) -> Option<int> {
    let bytes = token.spec_bytes();
    if 0 <= pos && bytes.len() > 0 && pos + bytes.len() <= input.len() && input.subrange(
        pos,
        pos + bytes.len(),
    ) == bytes {
        Some(pos + bytes.len())
    } else {
        None
    }
}

/// The span from `start` to `end`.
pub open spec fn span_of(start: int, end: int) -> Span {
    Span { start: start as u32, end: end as u32 }
}

/// The number that a run of digits denotes.
pub open spec fn decimal(digits: Seq<u8>) -> nat
    decreases digits.len(),
{
    if digits.len() == 0 {
        0
    } else {
        (decimal(digits.drop_last()) * 10 + (digits.last() - 48)) as nat
    }
}

/// A lower-case name: an underscore or a small letter, then word bytes.
pub open spec fn lname(input: Seq<u8>, pos: int) -> Option<(NameModel, int)> {
    if 0 <= pos < input.len() && is_lower_start(input[pos]) {
        let end = word_end(input, pos + 1);
        Some((NameModel { span: span_of(pos, end), text: input.subrange(pos, end) }, end))
    } else {
        None
    }
}

/// An upper-case name: a capital letter, then word bytes.
pub open spec fn uname(input: Seq<u8>, pos: int) -> Option<(NameModel, int)> {
    if 0 <= pos < input.len() && is_upper_start(input[pos]) {
        let end = word_end(input, pos + 1);
        Some((NameModel { span: span_of(pos, end), text: input.subrange(pos, end) }, end))
    } else {
        None
    }
}

/// An integer literal: an optional minus sign and digits, whose number fits
/// in 64 bits with a sign.
pub open spec fn integer_literal(input: Seq<u8>, pos: int) -> Option<(Literal, int)> {
    let start = match eat(input, pos, "-") {
        Some(behind) => behind,
        None => pos,
    };
    let end = digits_end(input, start);
    let magnitude = decimal(input.subrange(start, end)) as int;
    let value = if start == pos {
        magnitude
    } else {
        -magnitude
    };
    if 0 <= pos && start < end && i64::MIN <= value <= i64::MAX {
        Some((Literal { span: span_of(pos, end), kind: LiteralKind::Int(value as i64) }, end))
    } else {
        None
    }
}

/// A boolean literal: `false` or `true`.
pub open spec fn boolean_literal(input: Seq<u8>, pos: int) -> Option<(Literal, int)> {
    match eat(input, pos, "false") {
        Some(end) => Some((Literal { span: span_of(pos, end), kind: LiteralKind::Bool(false) }, end)),
        None => match eat(input, pos, "true") {
            Some(end) => Some(
                (Literal { span: span_of(pos, end), kind: LiteralKind::Bool(true) }, end),
            ),
            None => None,
        },
    }
}

/// A literal with the white space around it.
pub open spec fn literal(input: Seq<u8>, pos: int) -> Option<(Literal, int)> {
    let start = skip_space(input, pos);
    match integer_literal(input, start) {
        Some((lit, end)) => Some((lit, skip_space(input, end))),
        None => match boolean_literal(input, start) {
            Some((lit, end)) => Some((lit, skip_space(input, end))),
            None => None,
        },
    }
}

/// A variable on its own: a lower-case name, read as a type variable.
pub open spec fn var(input: Seq<u8>, pos: int) -> Option<(VarModel, int)> {
    match lname(input, pos) {
        Some((name, end)) => Some((VarModel::Ty(name), end)),
        None => None,
    }
}

/// A type that is no function type: `Bool`, `Int`, `forall a. T`, a type in
/// parentheses, or a type variable.
pub open spec fn ty_atom(input: Seq<u8>, pos: int) -> Option<(TypeModel, int)>
    decreases input.len() - pos, 1nat,
{
    if let Some(end) = eat(input, pos, "Bool") {
        Some((TypeModel::Scalar(Scalar::Bool), end))
    } else if let Some(end) = eat(input, pos, "Int") {
        Some((TypeModel::Scalar(Scalar::Int), end))
    } else if let Some(found) = quantified(input, pos) {
        Some(found)
    } else if let Some(found) = grouped_ty(input, pos) {
        Some(found)
    } else if let Some((name, end)) = lname(input, pos) {
        Some((TypeModel::Var(name), end))
    } else {
        None
    }
}

/// `forall a. T`, with optional white space behind `forall`, around the dot
/// and nowhere else.
pub open spec fn quantified(input: Seq<u8>, pos: int) -> Option<(TypeModel, int)>
    decreases input.len() - pos, 0nat,
{
    match eat(input, pos, "forall") {
        Some(behind) => match lname(input, skip_space(input, behind)) {
            Some((name, name_end)) => match eat(input, skip_space(input, name_end), ".") {
                Some(dot_end) => {
                    let start = skip_space(input, dot_end);
                    if pos < start <= input.len() {
                        match ty(input, start) {
                            Some((body, end)) => Some(
                                (TypeModel::ForAll(name, Box::new(body)), end),
                            ),
                            None => None,
                        }
                    } else {
                        None
                    }
                },
                None => None,
            },
            None => None,
        },
        None => None,
    }
}

/// A type in parentheses, with no white space inside them.
pub open spec fn grouped_ty(input: Seq<u8>, pos: int) -> Option<(TypeModel, int)>
    decreases input.len() - pos, 0nat,
{
    match eat(input, pos, "(") {
        Some(start) => match ty(input, start) {
            Some((inner, inner_end)) => match eat(input, inner_end, ")") {
                Some(end) => Some((inner, end)),
                None => None,
            },
            None => None,
        },
        None => None,
    }
}

/// A type: an atom, or a function type `T -> U` from an atom to a type, so
/// that the arrow associates to the right. White space may stand around the
/// arrow.
pub open spec fn ty(input: Seq<u8>, pos: int) -> Option<(TypeModel, int)>
    decreases input.len() - pos, 2nat,
{
    match ty_atom(input, pos) {
        Some((param, param_end)) => match eat(input, skip_space(input, param_end), "->") {
            Some(arrow_end) => {
                let start = skip_space(input, arrow_end);
                if pos < start <= input.len() {
                    match ty(input, start) {
                        Some((ret, end)) => Some(
                            (TypeModel::Fn(Box::new(param), Box::new(ret)), end),
                        ),
                        None => Some((param, param_end)),
                    }
                } else {
                    Some((param, param_end))
                }
            },
            None => Some((param, param_end)),
        },
        None => None,
    }
}

/// A binder: `x: T` for a value, `@a` for a type.
pub open spec fn binder(input: Seq<u8>, pos: int) -> Option<(BinderModel, int)> {
    if let Some(found) = val_binder(input, pos) {
        Some(found)
    } else {
        match eat(input, pos, "@") {
            Some(behind) => match lname(input, behind) {
                Some((name, end)) => Some((BinderModel::Ty(name), end)),
                None => None,
            },
            None => None,
        }
    }
}

/// A value binder: a lower-case name, a colon with optional white space
/// around it, and a type.
pub open spec fn val_binder(input: Seq<u8>, pos: int) -> Option<(BinderModel, int)> {
    match lname(input, pos) {
        Some((name, name_end)) => match eat(input, skip_space(input, name_end), ":") {
            Some(colon_end) => match ty(input, skip_space(input, colon_end)) {
                Some((declared, end)) => Some((BinderModel::Val(name, declared), end)),
                None => None,
            },
            None => None,
        },
        None => None,
    }
}

/// An expression that is no application: an expression in parentheses, a
/// lambda, a type argument `@T`, a literal or a variable.
pub open spec fn expr_atom(input: Seq<u8>, pos: int) -> Option<(ExprModel, int)>
    decreases input.len() - pos, 2nat,
{
    if let Some(found) = grouped_expr(input, pos) {
        Some(found)
    } else if let Some(found) = lambda(input, pos) {
        Some(found)
    } else if let Some(found) = type_argument(input, pos) {
        Some(found)
    } else if let Some((lit, end)) = literal(input, pos) {
        Some((ExprModel::Lit(lit), end))
    } else if let Some((name, end)) = lname(input, pos) {
        Some((ExprModel::Var(VarModel::Val(name)), end))
    } else {
        None
    }
}

/// An expression in parentheses.
pub open spec fn grouped_expr(input: Seq<u8>, pos: int) -> Option<(ExprModel, int)>
    decreases input.len() - pos, 1nat,
{
    match eat(input, pos, "(") {
        Some(start) => match expr(input, start) {
            Some((inner, inner_end)) => match eat(input, inner_end, ")") {
                Some(end) => Some((inner, end)),
                None => None,
            },
            None => None,
        },
        None => None,
    }
}

/// A lambda: a backslash, a binder, a dot and the body, with optional white
/// space behind the backslash and around the dot.
pub open spec fn lambda(input: Seq<u8>, pos: int) -> Option<(ExprModel, int)>
    decreases input.len() - pos, 1nat,
{
    match eat(input, pos, "\\") {
        Some(behind) => match binder(input, skip_space(input, behind)) {
            Some((bound, binder_end)) => match eat(input, skip_space(input, binder_end), ".") {
                Some(dot_end) => {
                    let start = skip_space(input, dot_end);
                    if pos < start <= input.len() {
                        match expr(input, start) {
                            Some((body, end)) => Some(
                                (ExprModel::Lambda(bound, Box::new(body)), end),
                            ),
                            None => None,
                        }
                    } else {
                        None
                    }
                },
                None => None,
            },
            None => None,
        },
        None => None,
    }
}

/// A type in the place of an argument: `@T`.
pub open spec fn type_argument(input: Seq<u8>, pos: int) -> Option<(ExprModel, int)> {
    match eat(input, pos, "@") {
        Some(start) => match ty(input, start) {
            Some((instance, end)) => Some((ExprModel::Type(instance), end)),
            None => None,
        },
        None => None,
    }
}

/// An atom behind optional white space: what is applied, and what it is
/// applied to.
pub open spec fn operand(input: Seq<u8>, pos: int) -> Option<(ExprModel, int)>
    decreases input.len() - pos, 3nat,
{
    let start = skip_space(input, pos);
    if pos <= start <= input.len() {
        expr_atom(input, start)
    } else {
        None
    }
}

/// The applications of `fun`, which ends at `pos`, to the operands that
/// follow it, each behind one blank. Application associates to the left.
pub open spec fn applications(input: Seq<u8>, fun: ExprModel, pos: int) -> (ExprModel, int)
    decreases input.len() - pos, 4nat,
{
    match eat(input, pos, " ") {
        Some(start) => match operand(input, start) {
            Some((arg, end)) => if pos < end <= input.len() {
                applications(input, ExprModel::App(Box::new(fun), Box::new(arg)), end)
            } else {
                (fun, pos)
            },
            None => (fun, pos),
        },
        None => (fun, pos),
    }
}

/// An expression: an operand, applied to the operands that follow it.
pub open spec fn expr(input: Seq<u8>, pos: int) -> Option<(ExprModel, int)>
    decreases input.len() - pos, 5nat,
{
    match operand(input, pos) {
        Some((first, end)) => if pos <= end <= input.len() {
            Some(applications(input, first, end))
        } else {
            None
        },
        None => None,
    }
}

/// A value definition: `let x : T = e`, with optional white space around
/// every part.
pub open spec fn value_def(input: Seq<u8>, pos: int) -> Option<(ValueDefModel, int)> {
    match eat(input, skip_space(input, pos), "let") {
        Some(let_end) => match lname(input, skip_space(input, let_end)) {
            Some((name, name_end)) => match eat(input, skip_space(input, name_end), ":") {
                Some(colon_end) => match ty(input, skip_space(input, colon_end)) {
                    Some((declared, ty_end)) => match eat(input, skip_space(input, ty_end), "=") {
                        Some(eq_end) => match expr(input, skip_space(input, eq_end)) {
                            Some((body, end)) => Some(
                                (
                                    ValueDefModel { name, ty: declared, expr: body },
                                    skip_space(input, end),
                                ),
                            ),
                            None => None,
                        },
                        None => None,
                    },
                    None => None,
                },
                None => None,
            },
            None => None,
        },
        None => None,
    }
}

/// An item: a value definition with optional white space around it. Its span
/// is that of the definition with the white space that the definition reads.
pub open spec fn item(input: Seq<u8>, pos: int) -> Option<(ItemModel, int)> {
    let start = skip_space(input, pos);
    match value_def(input, start) {
        Some((def, end)) => Some(
            (
                ItemModel { span: span_of(start, end), kind: ItemKindModel::ValueDef(def) },
                skip_space(input, end),
            ),
        ),
        None => None,
    }
}

/// The items that follow one another from `pos` on, and where they end.
pub open spec fn items(input: Seq<u8>, pos: int) -> (Seq<ItemModel>, int)
    decreases input.len() - pos,
{
    match item(input, pos) {
        Some((first, end)) => if pos < end <= input.len() {
            let (rest, rest_end) = items(input, end);
            (seq![first] + rest, rest_end)
        } else {
            (Seq::empty(), pos)
        },
        None => (Seq::empty(), pos),
    }
}

/// A source file: white space, then items.
pub open spec fn source_file(input: Seq<u8>, pos: int) -> Option<(Seq<ItemModel>, int)> {
    Some(items(input, skip_space(input, pos)))
}

/// White space ends in the text, at or behind where it starts.
pub proof fn lemma_skip_space_ends(input: Seq<u8>, pos: int)
    requires
        0 <= pos <= input.len(),
    ensures
        pos <= skip_space(input, pos) <= input.len(),
    decreases input.len() - pos,
{
    if pos < input.len() && is_space(input[pos]) {
        lemma_skip_space_ends(input, pos + 1);
    }
}

/// A run of word bytes ends in the text, at or behind where it starts.
pub proof fn lemma_word_ends(input: Seq<u8>, pos: int)
    requires
        0 <= pos <= input.len(),
    ensures
        pos <= word_end(input, pos) <= input.len(),
    decreases input.len() - pos,
{
    if pos < input.len() && is_word(input[pos]) {
        lemma_word_ends(input, pos + 1);
    }
}

/// A run of digits ends in the text, at or behind where it starts.
pub proof fn lemma_digits_end(input: Seq<u8>, pos: int)
    requires
        0 <= pos <= input.len(),
    ensures
        pos <= digits_end(input, pos) <= input.len(),
    decreases input.len() - pos,
{
    if pos < input.len() && is_digit(input[pos]) {
        lemma_digits_end(input, pos + 1);
    }
}

/// Whether what a rule has read from `pos` on ends in the text, behind `pos`.
pub open spec fn advances<T>(input: Seq<u8>, pos: int, parsed: Option<(T, int)>) -> bool {
    match parsed {
        Some((_, end)) => pos < end <= input.len(),
        None => true,
    }
}

/// A name that is read ends in the text, behind where it starts.
pub proof fn lemma_name_advances(input: Seq<u8>, pos: int)
    requires
        0 <= pos <= input.len(),
    ensures
        advances(input, pos, lname(input, pos)),
        advances(input, pos, uname(input, pos)),
{
    if pos < input.len() {
        lemma_word_ends(input, pos + 1);
    }
}

/// A literal that is read ends in the text, behind where it starts.
pub proof fn lemma_literal_advances(input: Seq<u8>, pos: int)
    requires
        0 <= pos <= input.len(),
    ensures
        advances(input, pos, integer_literal(input, pos)),
        advances(input, pos, boolean_literal(input, pos)),
        advances(input, pos, literal(input, pos)),
{
    let start = skip_space(input, pos);
    lemma_skip_space_ends(input, pos);
    match eat(input, pos, "-") {
        Some(behind) => lemma_digits_end(input, behind),
        None => lemma_digits_end(input, pos),
    }
    match eat(input, start, "-") {
        Some(behind) => lemma_digits_end(input, behind),
        None => lemma_digits_end(input, start),
    }
    match integer_literal(input, start) {
        Some((_, end)) => lemma_skip_space_ends(input, end),
        None => match boolean_literal(input, start) {
            Some((_, end)) => lemma_skip_space_ends(input, end),
            None => {},
        },
    }
}

/// A type that is read ends in the text, behind where it starts; and where
/// a rule for types reads on behind an arrow or a dot, the position has
/// moved on and lies in the text.
pub proof fn lemma_ty_advances(input: Seq<u8>, pos: int)
    requires
        0 <= pos <= input.len(),
    ensures
        advances(input, pos, ty(input, pos)),
        match ty_atom(input, pos) {
            Some((_, param_end)) => match eat(input, skip_space(input, param_end), "->") {
                Some(arrow_end) => pos < skip_space(input, arrow_end) <= input.len(),
                None => true,
            },
            None => true,
        },
    decreases input.len() - pos, 2nat,
{
    lemma_ty_atom_advances(input, pos);
    match ty_atom(input, pos) {
        Some((_, param_end)) => {
            lemma_skip_space_ends(input, param_end);
            match eat(input, skip_space(input, param_end), "->") {
                Some(arrow_end) => {
                    lemma_skip_space_ends(input, arrow_end);
                    lemma_ty_advances(input, skip_space(input, arrow_end));
                },
                None => {},
            }
        },
        None => {},
    }
}

/// What `lemma_ty_advances` says, for a type that is no function type.
pub proof fn lemma_ty_atom_advances(input: Seq<u8>, pos: int)
    requires
        0 <= pos <= input.len(),
    ensures
        advances(input, pos, ty_atom(input, pos)),
        advances(input, pos, quantified(input, pos)),
        advances(input, pos, grouped_ty(input, pos)),
        match eat(input, pos, "forall") {
            Some(behind) => match lname(input, skip_space(input, behind)) {
                Some((_, name_end)) => match eat(input, skip_space(input, name_end), ".") {
                    Some(dot_end) => pos < skip_space(input, dot_end) <= input.len(),
                    None => true,
                },
                None => true,
            },
            None => true,
        },
    decreases input.len() - pos, 1nat,
{
    lemma_name_advances(input, pos);
    match eat(input, pos, "forall") {
        Some(behind) => {
            lemma_skip_space_ends(input, behind);
            lemma_name_advances(input, skip_space(input, behind));
            match lname(input, skip_space(input, behind)) {
                Some((_, name_end)) => {
                    lemma_skip_space_ends(input, name_end);
                    match eat(input, skip_space(input, name_end), ".") {
                        Some(dot_end) => {
                            lemma_skip_space_ends(input, dot_end);
                            lemma_ty_advances(input, skip_space(input, dot_end));
                        },
                        None => {},
                    }
                },
                None => {},
            }
        },
        None => {},
    }
    match eat(input, pos, "(") {
        Some(start) => {
            lemma_ty_advances(input, start);
        },
        None => {},
    }
}

/// A binder that is read ends in the text, behind where it starts.
pub proof fn lemma_binder_advances(input: Seq<u8>, pos: int)
    requires
        0 <= pos <= input.len(),
    ensures
        advances(input, pos, binder(input, pos)),
        advances(input, pos, val_binder(input, pos)),
{
    lemma_name_advances(input, pos);
    match lname(input, pos) {
        Some((_, name_end)) => {
            lemma_skip_space_ends(input, name_end);
            match eat(input, skip_space(input, name_end), ":") {
                Some(colon_end) => {
                    lemma_skip_space_ends(input, colon_end);
                    lemma_ty_advances(input, skip_space(input, colon_end));
                },
                None => {},
            }
        },
        None => {},
    }
    match eat(input, pos, "@") {
        Some(behind) => lemma_name_advances(input, behind),
        None => {},
    }
}

/// An expression that is read ends in the text, behind where it starts; and
/// an expression reads on behind its first operand at a position in the text.
pub proof fn lemma_expr_advances(input: Seq<u8>, pos: int)
    requires
        0 <= pos <= input.len(),
    ensures
        advances(input, pos, expr(input, pos)),
        match operand(input, pos) {
            Some((_, end)) => pos <= end <= input.len(),
            None => true,
        },
    decreases input.len() - pos, 5nat,
{
    lemma_operand_advances(input, pos);
    match operand(input, pos) {
        Some((first, end)) => lemma_applications_advance(input, first, end),
        None => {},
    }
}

/// Applications end in the text, at or behind the function they start with;
/// and where another operand is read, the position has moved on and lies in
/// the text.
pub proof fn lemma_applications_advance(input: Seq<u8>, fun: ExprModel, pos: int)
    requires
        0 <= pos <= input.len(),
    ensures
        pos <= applications(input, fun, pos).1 <= input.len(),
        match eat(input, pos, " ") {
            Some(start) => match operand(input, start) {
                Some((_, end)) => pos < end <= input.len(),
                None => true,
            },
            None => true,
        },
    decreases input.len() - pos, 4nat,
{
    match eat(input, pos, " ") {
        Some(start) => {
            lemma_operand_advances(input, start);
            match operand(input, start) {
                Some((arg, end)) => {
                    lemma_applications_advance(
                        input,
                        ExprModel::App(Box::new(fun), Box::new(arg)),
                        end,
                    );
                },
                None => {},
            }
        },
        None => {},
    }
}

/// An operand that is read ends in the text, behind where it starts; and the
/// white space before it ends in the text.
pub proof fn lemma_operand_advances(input: Seq<u8>, pos: int)
    requires
        0 <= pos <= input.len(),
    ensures
        advances(input, pos, operand(input, pos)),
        pos <= skip_space(input, pos) <= input.len(),
    decreases input.len() - pos, 3nat,
{
    lemma_skip_space_ends(input, pos);
    lemma_expr_atom_advances(input, skip_space(input, pos));
}

/// What `lemma_expr_advances` says, for an expression that is no
/// application; and a lambda reads on behind its dot at a position that has
/// moved on and lies in the text.
pub proof fn lemma_expr_atom_advances(input: Seq<u8>, pos: int)
    requires
        0 <= pos <= input.len(),
    ensures
        advances(input, pos, expr_atom(input, pos)),
        advances(input, pos, grouped_expr(input, pos)),
        advances(input, pos, lambda(input, pos)),
        advances(input, pos, type_argument(input, pos)),
        match eat(input, pos, "\\") {
            Some(behind) => match binder(input, skip_space(input, behind)) {
                Some((_, binder_end)) => match eat(input, skip_space(input, binder_end), ".") {
                    Some(dot_end) => pos < skip_space(input, dot_end) <= input.len(),
                    None => true,
                },
                None => true,
            },
            None => true,
        },
    decreases input.len() - pos, 2nat,
{
    lemma_name_advances(input, pos);
    lemma_literal_advances(input, pos);
    match eat(input, pos, "(") {
        Some(start) => lemma_expr_advances(input, start),
        None => {},
    }
    match eat(input, pos, "@") {
        Some(start) => lemma_ty_advances(input, start),
        None => {},
    }
    match eat(input, pos, "\\") {
        Some(behind) => {
            lemma_skip_space_ends(input, behind);
            lemma_binder_advances(input, skip_space(input, behind));
            match binder(input, skip_space(input, behind)) {
                Some((_, binder_end)) => {
                    lemma_skip_space_ends(input, binder_end);
                    match eat(input, skip_space(input, binder_end), ".") {
                        Some(dot_end) => {
                            lemma_skip_space_ends(input, dot_end);
                            lemma_expr_advances(input, skip_space(input, dot_end));
                        },
                        None => {},
                    }
                },
                None => {},
            }
        },
        None => {},
    }
}

/// An item that is read ends in the text, behind where it starts, and so
/// does a value definition.
pub proof fn lemma_item_advances(input: Seq<u8>, pos: int)
    requires
        0 <= pos <= input.len(),
    ensures
        advances(input, pos, value_def(input, pos)),
        advances(input, pos, item(input, pos)),
{
    lemma_value_def_advances(input, pos);
    lemma_skip_space_ends(input, pos);
    lemma_value_def_advances(input, skip_space(input, pos));
    match value_def(input, skip_space(input, pos)) {
        Some((_, end)) => lemma_skip_space_ends(input, end),
        None => {},
    }
}

proof fn lemma_value_def_advances(input: Seq<u8>, pos: int)
    requires
        0 <= pos <= input.len(),
    ensures
        advances(input, pos, value_def(input, pos)),
{
    lemma_skip_space_ends(input, pos);
    match eat(input, skip_space(input, pos), "let") {
        Some(let_end) => {
            lemma_skip_space_ends(input, let_end);
            lemma_name_advances(input, skip_space(input, let_end));
            match lname(input, skip_space(input, let_end)) {
                Some((_, name_end)) => {
                    lemma_skip_space_ends(input, name_end);
                    match eat(input, skip_space(input, name_end), ":") {
                        Some(colon_end) => {
                            lemma_skip_space_ends(input, colon_end);
                            lemma_ty_advances(input, skip_space(input, colon_end));
                            match ty(input, skip_space(input, colon_end)) {
                                Some((_, ty_end)) => {
                                    lemma_skip_space_ends(input, ty_end);
                                    match eat(input, skip_space(input, ty_end), "=") {
                                        Some(eq_end) => {
                                            lemma_skip_space_ends(input, eq_end);
                                            lemma_expr_advances(
                                                input,
                                                skip_space(input, eq_end),
                                            );
                                            match expr(input, skip_space(input, eq_end)) {
                                                Some((_, end)) => lemma_skip_space_ends(
                                                    input,
                                                    end,
                                                ),
                                                None => {},
                                            }
                                        },
                                        None => {},
                                    }
                                },
                                None => {},
                            }
                        },
                        None => {},
                    }
                },
                None => {},
            }
        },
        None => {},
    }
}

} // verus!
