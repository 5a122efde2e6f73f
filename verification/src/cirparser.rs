//! The parser: reads the surface syntax from a text, rule by rule as the
//! grammar states it.

use vstd::prelude::*;
use vstd::slice::slice_subrange;
use vstd::string::StringSliceAdditionalSpecFns;

use crate::ast::Binder;
use crate::ast::BinderModel;
use crate::ast::Expr;
use crate::ast::ExprModel;
use crate::ast::Item;
use crate::ast::ItemKind;
use crate::ast::ItemModel;
use crate::ast::Literal;
use crate::ast::LiteralKind;
use crate::ast::SourceFile;
use crate::ast::TyVar;
use crate::ast::Type;
use crate::ast::TypeModel;
use crate::ast::ValueDef;
use crate::ast::ValueDefModel;
use crate::ast::Var;
use crate::ast::VarModel;
use crate::grammar;
use crate::name::Name;
use crate::name::NameModel;
use crate::span::Span;
use crate::ty::Scalar;

verus! {

/// Why a text is not what a rule reads.
#[derive(Debug, Clone, Copy, PartialEq, Eq, Structural)]
pub enum SyntaxError {
    /// The rule does not read the text to its end. The span is the rest of
    /// the text from where the rule stopped, or all of the text where the
    /// rule does not match at all.
    Unparsed { span: Span },
    /// The text has more bytes than a span can count.
    TooLong,
}

/// What reading a whole text with a rule comes to, given what the rule reads
/// at the start of the text.
pub open spec fn outcome<T>(input: Seq<u8>, parsed: Option<(T, int)>) -> Result<T, SyntaxError> {
    if input.len() > u32::MAX {
        Err(SyntaxError::TooLong)
    } else {
        match parsed {
            Some((value, end)) => if end == input.len() {
                Ok(value)
            } else {
                Err(SyntaxError::Unparsed { span: grammar::span_of(end, input.len() as int) })
            },
            None => Err(SyntaxError::Unparsed { span: grammar::span_of(0, input.len() as int) }),
        }
    }
}

fn is_space(byte: u8) -> (r: bool)
    ensures
        r == grammar::is_space(byte),
{
    byte == 32 || byte == 9 || byte == 10 || byte == 13
}

fn is_digit(byte: u8) -> (r: bool)
    ensures
        r == grammar::is_digit(byte),
{
    48 <= byte && byte <= 57
}

fn is_lower_start(byte: u8) -> (r: bool)
    ensures
        r == grammar::is_lower_start(byte),
{
    byte == 95 || (97 <= byte && byte <= 122)
}

fn is_upper_start(byte: u8) -> (r: bool)
    ensures
        r == grammar::is_upper_start(byte),
{
    65 <= byte && byte <= 90
}

fn is_word(byte: u8) -> (r: bool)
    ensures
        r == grammar::is_word(byte),
{
    byte == 95 || (97 <= byte && byte <= 122) || (65 <= byte && byte <= 90) || (48 <= byte && byte
        <= 57)
}

fn skip_space(input: &[u8], pos: usize) -> (end: usize)
    requires
        pos <= input@.len(),
    ensures
        end == grammar::skip_space(input@, pos as int),
        pos <= end <= input@.len(),
{
    let mut end = pos;
    while end < input.len() && is_space(input[end])
        invariant
            pos <= end <= input@.len(),
            grammar::skip_space(input@, end as int) == grammar::skip_space(input@, pos as int),
        decreases input@.len() - end,
    {
        end += 1;
    }
    end
}

fn word_end(input: &[u8], pos: usize) -> (end: usize)
    requires
        pos <= input@.len(),
    ensures
        end == grammar::word_end(input@, pos as int),
        pos <= end <= input@.len(),
        forall|i: int| pos <= i < end ==> grammar::is_word(input@[i]),
{
    let mut end = pos;
    while end < input.len() && is_word(input[end])
        invariant
            pos <= end <= input@.len(),
            grammar::word_end(input@, end as int) == grammar::word_end(input@, pos as int),
            forall|i: int| pos <= i < end ==> grammar::is_word(input@[i]),
        decreases input@.len() - end,
    {
        end += 1;
    }
    end
}

fn digits_end(input: &[u8], pos: usize) -> (end: usize)
    requires
        pos <= input@.len(),
    ensures
        end == grammar::digits_end(input@, pos as int),
        pos <= end <= input@.len(),
        forall|i: int| pos <= i < end ==> grammar::is_digit(input@[i]),
{
    let mut end = pos;
    while end < input.len() && is_digit(input[end])
        invariant
            pos <= end <= input@.len(),
            grammar::digits_end(input@, end as int) == grammar::digits_end(input@, pos as int),
            forall|i: int| pos <= i < end ==> grammar::is_digit(input@[i]),
        decreases input@.len() - end,
    {
        end += 1;
    }
    end
}

fn eat(input: &[u8], pos: usize, token: &str) -> (end: Option<usize>)
    requires
        pos <= input@.len(),
    ensures
        match end {
            Some(behind) => grammar::eat(input@, pos as int, token) == Some(behind as int) && pos
                < behind <= input@.len(),
            None => grammar::eat(input@, pos as int, token) is None,
        },
{
    let bytes = token.as_bytes();
    let len = input.len();
    if bytes.len() == 0 || bytes.len() > len - pos {
        return None;
    }
    let mut i: usize = 0;
    while i < bytes.len()
        invariant
            len == input@.len(),
            bytes@ == token.spec_bytes(),
            0 < bytes@.len(),
            pos + bytes@.len() <= input@.len(),
            i <= bytes@.len(),
            forall|j: int| 0 <= j < i ==> input@[pos + j] == bytes@[j],
        decreases bytes@.len() - i,
    {
        if input[pos + i] != bytes[i] {
            return None;
        }
        i += 1;
    }
    assert(input@.subrange(pos as int, pos + bytes@.len()) =~= bytes@);
    Some(pos + bytes.len())
}

fn span(start: usize, end: usize) -> (span: Span)
    requires
        start <= end <= u32::MAX,
    ensures
        span == grammar::span_of(start as int, end as int),
{
    Span::new(start as u32, end as u32)
}

fn parse_lname(input: &[u8], pos: usize) -> (result: Option<(Name, usize)>)
    requires
        input@.len() <= u32::MAX,
        pos <= input@.len(),
    ensures
        match result {
            Some((name, end)) => grammar::lname(input@, pos as int) == Some((name@, end as int))
                && pos < end <= input@.len(),
            None => grammar::lname(input@, pos as int) is None,
        },
{
    if pos < input.len() && is_lower_start(input[pos]) {
        let end = word_end(input, pos + 1);
        let name = Name::from_ascii(span(pos, end), slice_subrange(input, pos, end));
        Some((name, end))
    } else {
        None
    }
}

fn parse_uname(input: &[u8], pos: usize) -> (result: Option<(Name, usize)>)
    requires
        input@.len() <= u32::MAX,
        pos <= input@.len(),
    ensures
        match result {
            Some((name, end)) => grammar::uname(input@, pos as int) == Some((name@, end as int))
                && pos < end <= input@.len(),
            None => grammar::uname(input@, pos as int) is None,
        },
{
    if pos < input.len() && is_upper_start(input[pos]) {
        let end = word_end(input, pos + 1);
        let name = Name::from_ascii(span(pos, end), slice_subrange(input, pos, end));
        Some((name, end))
    } else {
        None
    }
}

/// The number that the digits from `start` up to `end` denote, where it is
/// at most 2^63; `None` where it is more.
fn magnitude(input: &[u8], start: usize, end: usize) -> (value: Option<u64>)
    requires
        start <= end <= input@.len(),
        forall|i: int| start <= i < end ==> grammar::is_digit(input@[i]),
    ensures
        match value {
            Some(number) => number == grammar::decimal(input@.subrange(start as int, end as int))
                && number <= 0x8000_0000_0000_0000,
            None => grammar::decimal(input@.subrange(start as int, end as int))
                > 0x8000_0000_0000_0000,
        },
{
    let mut i = start;
    let mut number: u64 = 0;
    let mut over = false;
    while i < end
        invariant
            start <= i <= end <= input@.len(),
            forall|j: int| start <= j < end ==> grammar::is_digit(input@[j]),
            !over ==> number == grammar::decimal(input@.subrange(start as int, i as int))
                && number <= 0x8000_0000_0000_0000,
            over ==> grammar::decimal(input@.subrange(start as int, i as int))
                > 0x8000_0000_0000_0000,
        decreases end - i,
    {
        let digit = (input[i] - 48) as u64;
        proof {
            let longer = input@.subrange(start as int, i + 1);
            assert(longer.drop_last() =~= input@.subrange(start as int, i as int));
        }
        if !over {
            if number > (0x8000_0000_0000_0000 - digit) / 10 {
                over = true;
            } else {
                number = number * 10 + digit;
            }
        }
        i += 1;
    }
    if over {
        None
    } else {
        Some(number)
    }
}

fn parse_integer_literal(input: &[u8], pos: usize) -> (result: Option<(Literal, usize)>)
    requires
        input@.len() <= u32::MAX,
        pos <= input@.len(),
    ensures
        match result {
            Some((lit, end)) => grammar::integer_literal(input@, pos as int) == Some(
                (lit, end as int),
            ) && pos < end <= input@.len(),
            None => grammar::integer_literal(input@, pos as int) is None,
        },
{
    let start = match eat(input, pos, "-") {
        Some(behind) => behind,
        None => pos,
    };
    let end = digits_end(input, start);
    if end == start {
        return None;
    }
    let number = match magnitude(input, start, end) {
        Some(number) => number,
        None => {
            return None;
        },
    };
    let value: i64 = if start == pos {
        if number > 0x7fff_ffff_ffff_ffff {
            return None;
        }
        number as i64
    } else if number == 0x8000_0000_0000_0000 {
        i64::MIN
    } else {
        -(number as i64)
    };
    Some((Literal { span: span(pos, end), kind: LiteralKind::Int(value) }, end))
}

fn parse_boolean_literal(input: &[u8], pos: usize) -> (result: Option<(Literal, usize)>)
    requires
        input@.len() <= u32::MAX,
        pos <= input@.len(),
    ensures
        match result {
            Some((lit, end)) => grammar::boolean_literal(input@, pos as int) == Some(
                (lit, end as int),
            ) && pos < end <= input@.len(),
            None => grammar::boolean_literal(input@, pos as int) is None,
        },
{
    match eat(input, pos, "false") {
        Some(end) => Some((Literal { span: span(pos, end), kind: LiteralKind::Bool(false) }, end)),
        None => match eat(input, pos, "true") {
            Some(end) => Some(
                (Literal { span: span(pos, end), kind: LiteralKind::Bool(true) }, end),
            ),
            None => None,
        },
    }
}

fn parse_literal(input: &[u8], pos: usize) -> (result: Option<(Literal, usize)>)
    requires
        input@.len() <= u32::MAX,
        pos <= input@.len(),
    ensures
        match result {
            Some((lit, end)) => grammar::literal(input@, pos as int) == Some((lit, end as int))
                && pos < end <= input@.len(),
            None => grammar::literal(input@, pos as int) is None,
        },
{
    let start = skip_space(input, pos);
    match parse_integer_literal(input, start) {
        Some((lit, end)) => Some((lit, skip_space(input, end))),
        None => match parse_boolean_literal(input, start) {
            Some((lit, end)) => Some((lit, skip_space(input, end))),
            None => None,
        },
    }
}

fn parse_var(input: &[u8], pos: usize) -> (result: Option<(Var, usize)>)
    requires
        input@.len() <= u32::MAX,
        pos <= input@.len(),
    ensures
        match result {
            Some((var, end)) => grammar::var(input@, pos as int) == Some((var@, end as int))
                && pos < end <= input@.len(),
            None => grammar::var(input@, pos as int) is None,
        },
{
    match parse_lname(input, pos) {
        Some((name, end)) => Some((Var::Ty(TyVar { name }), end)),
        None => None,
    }
}

fn parse_ty_atom(input: &[u8], pos: usize) -> (result: Option<(Type, usize)>)
    requires
        input@.len() <= u32::MAX,
        pos <= input@.len(),
    ensures
        match result {
            Some((ty, end)) => grammar::ty_atom(input@, pos as int) == Some((ty@, end as int))
                && pos < end <= input@.len(),
            None => grammar::ty_atom(input@, pos as int) is None,
        },
    decreases input@.len() - pos, 1nat,
{
    if let Some(end) = eat(input, pos, "Bool") {
        return Some((Type::Scalar(Scalar::Bool), end));
    }
    if let Some(end) = eat(input, pos, "Int") {
        return Some((Type::Scalar(Scalar::Int), end));
    }
    if let Some(found) = parse_quantified(input, pos) {
        return Some(found);
    }
    if let Some(found) = parse_grouped_ty(input, pos) {
        return Some(found);
    }
    match parse_lname(input, pos) {
        Some((name, end)) => Some((Type::Var(TyVar { name }), end)),
        None => None,
    }
}

fn parse_quantified(input: &[u8], pos: usize) -> (result: Option<(Type, usize)>)
    requires
        input@.len() <= u32::MAX,
        pos <= input@.len(),
    ensures
        match result {
            Some((ty, end)) => grammar::quantified(input@, pos as int) == Some((ty@, end as int))
                && pos < end <= input@.len(),
            None => grammar::quantified(input@, pos as int) is None,
        },
    decreases input@.len() - pos, 0nat,
{
    let behind = match eat(input, pos, "forall") {
        Some(behind) => behind,
        None => {
            return None;
        },
    };
    let (name, name_end) = match parse_lname(input, skip_space(input, behind)) {
        Some(found) => found,
        None => {
            return None;
        },
    };
    let dot_end = match eat(input, skip_space(input, name_end), ".") {
        Some(dot_end) => dot_end,
        None => {
            return None;
        },
    };
    match parse_ty(input, skip_space(input, dot_end)) {
        Some((body, end)) => Some((Type::ForAll(TyVar { name }, Box::new(body)), end)),
        None => None,
    }
}

fn parse_grouped_ty(input: &[u8], pos: usize) -> (result: Option<(Type, usize)>)
    requires
        input@.len() <= u32::MAX,
        pos <= input@.len(),
    ensures
        match result {
            Some((ty, end)) => grammar::grouped_ty(input@, pos as int) == Some((ty@, end as int))
                && pos < end <= input@.len(),
            None => grammar::grouped_ty(input@, pos as int) is None,
        },
    decreases input@.len() - pos, 0nat,
{
    let start = match eat(input, pos, "(") {
        Some(start) => start,
        None => {
            return None;
        },
    };
    let (inner, inner_end) = match parse_ty(input, start) {
        Some(found) => found,
        None => {
            return None;
        },
    };
    match eat(input, inner_end, ")") {
        Some(end) => Some((inner, end)),
        None => None,
    }
}

fn parse_ty(input: &[u8], pos: usize) -> (result: Option<(Type, usize)>)
    requires
        input@.len() <= u32::MAX,
        pos <= input@.len(),
    ensures
        match result {
            Some((ty, end)) => grammar::ty(input@, pos as int) == Some((ty@, end as int)) && pos
                < end <= input@.len(),
            None => grammar::ty(input@, pos as int) is None,
        },
    decreases input@.len() - pos, 2nat,
{
    let (param, param_end) = match parse_ty_atom(input, pos) {
        Some(found) => found,
        None => {
            return None;
        },
    };
    let arrow_end = match eat(input, skip_space(input, param_end), "->") {
        Some(arrow_end) => arrow_end,
        None => {
            return Some((param, param_end));
        },
    };
    match parse_ty(input, skip_space(input, arrow_end)) {
        Some((ret, end)) => Some((Type::Fn(Box::new(param), Box::new(ret)), end)),
        None => Some((param, param_end)),
    }
}

fn parse_val_binder(input: &[u8], pos: usize) -> (result: Option<(Binder, usize)>)
    requires
        input@.len() <= u32::MAX,
        pos <= input@.len(),
    ensures
        match result {
            Some((binder, end)) => grammar::val_binder(input@, pos as int) == Some(
                (binder@, end as int),
            ) && pos < end <= input@.len(),
            None => grammar::val_binder(input@, pos as int) is None,
        },
{
    let (name, name_end) = match parse_lname(input, pos) {
        Some(found) => found,
        None => {
            return None;
        },
    };
    let colon_end = match eat(input, skip_space(input, name_end), ":") {
        Some(colon_end) => colon_end,
        None => {
            return None;
        },
    };
    match parse_ty(input, skip_space(input, colon_end)) {
        Some((declared, end)) => Some((Binder::Val(name, declared), end)),
        None => None,
    }
}

fn parse_binder(input: &[u8], pos: usize) -> (result: Option<(Binder, usize)>)
    requires
        input@.len() <= u32::MAX,
        pos <= input@.len(),
    ensures
        match result {
            Some((binder, end)) => grammar::binder(input@, pos as int) == Some(
                (binder@, end as int),
            ) && pos < end <= input@.len(),
            None => grammar::binder(input@, pos as int) is None,
        },
{
    if let Some(found) = parse_val_binder(input, pos) {
        return Some(found);
    }
    let behind = match eat(input, pos, "@") {
        Some(behind) => behind,
        None => {
            return None;
        },
    };
    match parse_lname(input, behind) {
        Some((name, end)) => Some((Binder::Ty(TyVar { name }), end)),
        None => None,
    }
}

fn parse_expr_atom(input: &[u8], pos: usize) -> (result: Option<(Expr, usize)>)
    requires
        input@.len() <= u32::MAX,
        pos <= input@.len(),
    ensures
        match result {
            Some((expr, end)) => grammar::expr_atom(input@, pos as int) == Some(
                (expr@, end as int),
            ) && pos < end <= input@.len(),
            None => grammar::expr_atom(input@, pos as int) is None,
        },
    decreases input@.len() - pos, 2nat,
{
    if let Some(found) = parse_grouped_expr(input, pos) {
        return Some(found);
    }
    if let Some(found) = parse_lambda(input, pos) {
        return Some(found);
    }
    if let Some(found) = parse_type_argument(input, pos) {
        return Some(found);
    }
    if let Some((lit, end)) = parse_literal(input, pos) {
        return Some((Expr::Lit(lit), end));
    }
    match parse_lname(input, pos) {
        Some((name, end)) => Some((Expr::Var(Var::Val { name }), end)),
        None => None,
    }
}

fn parse_grouped_expr(input: &[u8], pos: usize) -> (result: Option<(Expr, usize)>)
    requires
        input@.len() <= u32::MAX,
        pos <= input@.len(),
    ensures
        match result {
            Some((expr, end)) => grammar::grouped_expr(input@, pos as int) == Some(
                (expr@, end as int),
            ) && pos < end <= input@.len(),
            None => grammar::grouped_expr(input@, pos as int) is None,
        },
    decreases input@.len() - pos, 1nat,
{
    let start = match eat(input, pos, "(") {
        Some(start) => start,
        None => {
            return None;
        },
    };
    let (inner, inner_end) = match parse_expr(input, start) {
        Some(found) => found,
        None => {
            return None;
        },
    };
    match eat(input, inner_end, ")") {
        Some(end) => Some((inner, end)),
        None => None,
    }
}

fn parse_lambda(input: &[u8], pos: usize) -> (result: Option<(Expr, usize)>)
    requires
        input@.len() <= u32::MAX,
        pos <= input@.len(),
    ensures
        match result {
            Some((expr, end)) => grammar::lambda(input@, pos as int) == Some((expr@, end as int))
                && pos < end <= input@.len(),
            None => grammar::lambda(input@, pos as int) is None,
        },
    decreases input@.len() - pos, 1nat,
{
    let behind = match eat(input, pos, "\\") {
        Some(behind) => behind,
        None => {
            return None;
        },
    };
    let (bound, binder_end) = match parse_binder(input, skip_space(input, behind)) {
        Some(found) => found,
        None => {
            return None;
        },
    };
    let dot_end = match eat(input, skip_space(input, binder_end), ".") {
        Some(dot_end) => dot_end,
        None => {
            return None;
        },
    };
    match parse_expr(input, skip_space(input, dot_end)) {
        Some((body, end)) => Some((Expr::Lambda(bound, Box::new(body)), end)),
        None => None,
    }
}

fn parse_type_argument(input: &[u8], pos: usize) -> (result: Option<(Expr, usize)>)
    requires
        input@.len() <= u32::MAX,
        pos <= input@.len(),
    ensures
        match result {
            Some((expr, end)) => grammar::type_argument(input@, pos as int) == Some(
                (expr@, end as int),
            ) && pos < end <= input@.len(),
            None => grammar::type_argument(input@, pos as int) is None,
        },
{
    let start = match eat(input, pos, "@") {
        Some(start) => start,
        None => {
            return None;
        },
    };
    match parse_ty(input, start) {
        Some((instance, end)) => Some((Expr::Type(instance), end)),
        None => None,
    }
}

fn parse_operand(input: &[u8], pos: usize) -> (result: Option<(Expr, usize)>)
    requires
        input@.len() <= u32::MAX,
        pos <= input@.len(),
    ensures
        match result {
            Some((expr, end)) => grammar::operand(input@, pos as int) == Some((expr@, end as int))
                && pos < end <= input@.len(),
            None => grammar::operand(input@, pos as int) is None,
        },
    decreases input@.len() - pos, 3nat,
{
    parse_expr_atom(input, skip_space(input, pos))
}

fn parse_expr(input: &[u8], pos: usize) -> (result: Option<(Expr, usize)>)
    requires
        input@.len() <= u32::MAX,
        pos <= input@.len(),
    ensures
        match result {
            Some((expr, end)) => grammar::expr(input@, pos as int) == Some((expr@, end as int))
                && pos < end <= input@.len(),
            None => grammar::expr(input@, pos as int) is None,
        },
    decreases input@.len() - pos, 5nat,
{
    let (first, first_end) = match parse_operand(input, pos) {
        Some(found) => found,
        None => {
            return None;
        },
    };
    let ghost target = grammar::applications(input@, first@, first_end as int);
    let mut fun = first;
    let mut end = first_end;
    let mut more = true;
    while more
        invariant
            input@.len() <= u32::MAX,
            pos < end <= input@.len(),
            grammar::applications(input@, fun@, end as int) == target,
            !more ==> target == (fun@, end as int),
        decreases input@.len() - end, if more { 1nat } else { 0nat },
    {
        match eat(input, end, " ") {
            Some(start) => match parse_operand(input, start) {
                Some((arg, arg_end)) => {
                    fun = Expr::App(Box::new(fun), Box::new(arg));
                    end = arg_end;
                },
                None => {
                    more = false;
                },
            },
            None => {
                more = false;
            },
        }
    }
    Some((fun, end))
}

fn parse_value_def(input: &[u8], pos: usize) -> (result: Option<(ValueDef, usize)>)
    requires
        input@.len() <= u32::MAX,
        pos <= input@.len(),
    ensures
        match result {
            Some((def, end)) => grammar::value_def(input@, pos as int) == Some((def@, end as int))
                && pos < end <= input@.len(),
            None => grammar::value_def(input@, pos as int) is None,
        },
{
    let let_end = match eat(input, skip_space(input, pos), "let") {
        Some(let_end) => let_end,
        None => {
            return None;
        },
    };
    let (name, name_end) = match parse_lname(input, skip_space(input, let_end)) {
        Some(found) => found,
        None => {
            return None;
        },
    };
    let colon_end = match eat(input, skip_space(input, name_end), ":") {
        Some(colon_end) => colon_end,
        None => {
            return None;
        },
    };
    let (ty, ty_end) = match parse_ty(input, skip_space(input, colon_end)) {
        Some(found) => found,
        None => {
            return None;
        },
    };
    let eq_end = match eat(input, skip_space(input, ty_end), "=") {
        Some(eq_end) => eq_end,
        None => {
            return None;
        },
    };
    match parse_expr(input, skip_space(input, eq_end)) {
        Some((expr, end)) => Some((ValueDef { name, ty, expr }, skip_space(input, end))),
        None => None,
    }
}

fn parse_item(input: &[u8], pos: usize) -> (result: Option<(Item, usize)>)
    requires
        input@.len() <= u32::MAX,
        pos <= input@.len(),
    ensures
        match result {
            Some((item, end)) => grammar::item(input@, pos as int) == Some((item@, end as int))
                && pos < end <= input@.len(),
            None => grammar::item(input@, pos as int) is None,
        },
{
    let start = skip_space(input, pos);
    match parse_value_def(input, start) {
        Some((def, end)) => Some(
            (Item { span: span(start, end), kind: ItemKind::ValueDef(def) }, skip_space(input, end)),
        ),
        None => None,
    }
}

fn parse_items(input: &[u8], pos: usize) -> (result: (Vec<Item>, usize))
    requires
        input@.len() <= u32::MAX,
        pos <= input@.len(),
    ensures
        grammar::items(input@, pos as int) == (
            Seq::new(result.0@.len(), |i: int| result.0@[i]@),
            result.1 as int,
        ),
        pos <= result.1 <= input@.len(),
{
    let ghost target = grammar::items(input@, pos as int);
    let mut items: Vec<Item> = Vec::new();
    let mut end = pos;
    let mut more = true;
    while more
        invariant
            input@.len() <= u32::MAX,
            pos <= end <= input@.len(),
            target == (
                Seq::new(items@.len(), |i: int| items@[i]@) + grammar::items(input@, end as int).0,
                grammar::items(input@, end as int).1,
            ),
            !more ==> grammar::items(input@, end as int) == (Seq::<ItemModel>::empty(), end as int),
        decreases input@.len() - end, if more { 1nat } else { 0nat },
    {
        match parse_item(input, end) {
            Some((item, item_end)) => {
                items.push(item);
                end = item_end;
            },
            None => {
                more = false;
            },
        }
    }
    (items, end)
}

/// Reads a whole text as an integer literal.
pub fn integer_literal(text: &str) -> (result: Result<Literal, SyntaxError>)
    ensures
        match result {
            Ok(value) => outcome(text.spec_bytes(), grammar::integer_literal(text.spec_bytes(), 0)) == Ok::<
                Literal,
                SyntaxError,
            >(value),
            Err(error) => outcome(text.spec_bytes(), grammar::integer_literal(text.spec_bytes(), 0)) == Err::<
                Literal,
                SyntaxError,
            >(error),
        },
{
    let input = text.as_bytes();
    if input.len() > u32::MAX as usize {
        return Err(SyntaxError::TooLong);
    }
    match parse_integer_literal(input, 0) {
        Some((value, end)) => if end == input.len() {
            Ok(value)
        } else {
            Err(SyntaxError::Unparsed { span: span(end, input.len()) })
        },
        None => Err(SyntaxError::Unparsed { span: span(0, input.len()) }),
    }
}

/// Reads a whole text as a boolean literal.
pub fn boolean_literal(text: &str) -> (result: Result<Literal, SyntaxError>)
    ensures
        match result {
            Ok(value) => outcome(text.spec_bytes(), grammar::boolean_literal(text.spec_bytes(), 0)) == Ok::<
                Literal,
                SyntaxError,
            >(value),
            Err(error) => outcome(text.spec_bytes(), grammar::boolean_literal(text.spec_bytes(), 0)) == Err::<
                Literal,
                SyntaxError,
            >(error),
        },
{
    let input = text.as_bytes();
    if input.len() > u32::MAX as usize {
        return Err(SyntaxError::TooLong);
    }
    match parse_boolean_literal(input, 0) {
        Some((value, end)) => if end == input.len() {
            Ok(value)
        } else {
            Err(SyntaxError::Unparsed { span: span(end, input.len()) })
        },
        None => Err(SyntaxError::Unparsed { span: span(0, input.len()) }),
    }
}

/// Reads a whole text as a literal with white space around it.
pub fn literal(text: &str) -> (result: Result<Literal, SyntaxError>)
    ensures
        match result {
            Ok(value) => outcome(text.spec_bytes(), grammar::literal(text.spec_bytes(), 0)) == Ok::<
                Literal,
                SyntaxError,
            >(value),
            Err(error) => outcome(text.spec_bytes(), grammar::literal(text.spec_bytes(), 0)) == Err::<
                Literal,
                SyntaxError,
            >(error),
        },
{
    let input = text.as_bytes();
    if input.len() > u32::MAX as usize {
        return Err(SyntaxError::TooLong);
    }
    match parse_literal(input, 0) {
        Some((value, end)) => if end == input.len() {
            Ok(value)
        } else {
            Err(SyntaxError::Unparsed { span: span(end, input.len()) })
        },
        None => Err(SyntaxError::Unparsed { span: span(0, input.len()) }),
    }
}

/// Reads a whole text as a lower-case name.
pub fn lname(text: &str) -> (result: Result<Name, SyntaxError>)
    ensures
        match result {
            Ok(value) => outcome(text.spec_bytes(), grammar::lname(text.spec_bytes(), 0)) == Ok::<
                NameModel,
                SyntaxError,
            >(value@),
            Err(error) => outcome(text.spec_bytes(), grammar::lname(text.spec_bytes(), 0)) == Err::<
                NameModel,
                SyntaxError,
            >(error),
        },
{
    let input = text.as_bytes();
    if input.len() > u32::MAX as usize {
        return Err(SyntaxError::TooLong);
    }
    match parse_lname(input, 0) {
        Some((value, end)) => if end == input.len() {
            Ok(value)
        } else {
            Err(SyntaxError::Unparsed { span: span(end, input.len()) })
        },
        None => Err(SyntaxError::Unparsed { span: span(0, input.len()) }),
    }
}

/// Reads a whole text as an upper-case name.
pub fn uname(text: &str) -> (result: Result<Name, SyntaxError>)
    ensures
        match result {
            Ok(value) => outcome(text.spec_bytes(), grammar::uname(text.spec_bytes(), 0)) == Ok::<
                NameModel,
                SyntaxError,
            >(value@),
            Err(error) => outcome(text.spec_bytes(), grammar::uname(text.spec_bytes(), 0)) == Err::<
                NameModel,
                SyntaxError,
            >(error),
        },
{
    let input = text.as_bytes();
    if input.len() > u32::MAX as usize {
        return Err(SyntaxError::TooLong);
    }
    match parse_uname(input, 0) {
        Some((value, end)) => if end == input.len() {
            Ok(value)
        } else {
            Err(SyntaxError::Unparsed { span: span(end, input.len()) })
        },
        None => Err(SyntaxError::Unparsed { span: span(0, input.len()) }),
    }
}

/// Reads a whole text as a type variable.
pub fn tyvar(text: &str) -> (result: Result<TyVar, SyntaxError>)
    ensures
        match result {
            Ok(value) => outcome(text.spec_bytes(), grammar::lname(text.spec_bytes(), 0)) == Ok::<
                NameModel,
                SyntaxError,
            >(value@),
            Err(error) => outcome(text.spec_bytes(), grammar::lname(text.spec_bytes(), 0)) == Err::<
                NameModel,
                SyntaxError,
            >(error),
        },
{
    let input = text.as_bytes();
    if input.len() > u32::MAX as usize {
        return Err(SyntaxError::TooLong);
    }
    match parse_lname(input, 0) {
        Some((value, end)) => if end == input.len() {
            Ok(TyVar { name: value })
        } else {
            Err(SyntaxError::Unparsed { span: span(end, input.len()) })
        },
        None => Err(SyntaxError::Unparsed { span: span(0, input.len()) }),
    }
}

/// Reads a whole text as a variable.
pub fn var(text: &str) -> (result: Result<Var, SyntaxError>)
    ensures
        match result {
            Ok(value) => outcome(text.spec_bytes(), grammar::var(text.spec_bytes(), 0)) == Ok::<
                VarModel,
                SyntaxError,
            >(value@),
            Err(error) => outcome(text.spec_bytes(), grammar::var(text.spec_bytes(), 0)) == Err::<
                VarModel,
                SyntaxError,
            >(error),
        },
{
    let input = text.as_bytes();
    if input.len() > u32::MAX as usize {
        return Err(SyntaxError::TooLong);
    }
    match parse_var(input, 0) {
        Some((value, end)) => if end == input.len() {
            Ok(value)
        } else {
            Err(SyntaxError::Unparsed { span: span(end, input.len()) })
        },
        None => Err(SyntaxError::Unparsed { span: span(0, input.len()) }),
    }
}

/// Reads a whole text as a binder.
pub fn binder(text: &str) -> (result: Result<Binder, SyntaxError>)
    ensures
        match result {
            Ok(value) => outcome(text.spec_bytes(), grammar::binder(text.spec_bytes(), 0)) == Ok::<
                BinderModel,
                SyntaxError,
            >(value@),
            Err(error) => outcome(text.spec_bytes(), grammar::binder(text.spec_bytes(), 0)) == Err::<
                BinderModel,
                SyntaxError,
            >(error),
        },
{
    let input = text.as_bytes();
    if input.len() > u32::MAX as usize {
        return Err(SyntaxError::TooLong);
    }
    match parse_binder(input, 0) {
        Some((value, end)) => if end == input.len() {
            Ok(value)
        } else {
            Err(SyntaxError::Unparsed { span: span(end, input.len()) })
        },
        None => Err(SyntaxError::Unparsed { span: span(0, input.len()) }),
    }
}

/// Reads a whole text as an expression.
pub fn expr(text: &str) -> (result: Result<Expr, SyntaxError>)
    ensures
        match result {
            Ok(value) => outcome(text.spec_bytes(), grammar::expr(text.spec_bytes(), 0)) == Ok::<
                ExprModel,
                SyntaxError,
            >(value@),
            Err(error) => outcome(text.spec_bytes(), grammar::expr(text.spec_bytes(), 0)) == Err::<
                ExprModel,
                SyntaxError,
            >(error),
        },
{
    let input = text.as_bytes();
    if input.len() > u32::MAX as usize {
        return Err(SyntaxError::TooLong);
    }
    match parse_expr(input, 0) {
        Some((value, end)) => if end == input.len() {
            Ok(value)
        } else {
            Err(SyntaxError::Unparsed { span: span(end, input.len()) })
        },
        None => Err(SyntaxError::Unparsed { span: span(0, input.len()) }),
    }
}

/// Reads a whole text as a type.
pub fn ty(text: &str) -> (result: Result<Type, SyntaxError>)
    ensures
        match result {
            Ok(value) => outcome(text.spec_bytes(), grammar::ty(text.spec_bytes(), 0)) == Ok::<
                TypeModel,
                SyntaxError,
            >(value@),
            Err(error) => outcome(text.spec_bytes(), grammar::ty(text.spec_bytes(), 0)) == Err::<
                TypeModel,
                SyntaxError,
            >(error),
        },
{
    let input = text.as_bytes();
    if input.len() > u32::MAX as usize {
        return Err(SyntaxError::TooLong);
    }
    match parse_ty(input, 0) {
        Some((value, end)) => if end == input.len() {
            Ok(value)
        } else {
            Err(SyntaxError::Unparsed { span: span(end, input.len()) })
        },
        None => Err(SyntaxError::Unparsed { span: span(0, input.len()) }),
    }
}

/// Reads a whole text as a value definition.
pub fn value_def(text: &str) -> (result: Result<ValueDef, SyntaxError>)
    ensures
        match result {
            Ok(value) => outcome(text.spec_bytes(), grammar::value_def(text.spec_bytes(), 0)) == Ok::<
                ValueDefModel,
                SyntaxError,
            >(value@),
            Err(error) => outcome(text.spec_bytes(), grammar::value_def(text.spec_bytes(), 0)) == Err::<
                ValueDefModel,
                SyntaxError,
            >(error),
        },
{
    let input = text.as_bytes();
    if input.len() > u32::MAX as usize {
        return Err(SyntaxError::TooLong);
    }
    match parse_value_def(input, 0) {
        Some((value, end)) => if end == input.len() {
            Ok(value)
        } else {
            Err(SyntaxError::Unparsed { span: span(end, input.len()) })
        },
        None => Err(SyntaxError::Unparsed { span: span(0, input.len()) }),
    }
}

/// Reads a whole text as an item that is a value definition.
pub fn value_def_item(text: &str) -> (result: Result<Item, SyntaxError>)
    ensures
        match result {
            Ok(value) => outcome(text.spec_bytes(), grammar::item(text.spec_bytes(), 0)) == Ok::<
                ItemModel,
                SyntaxError,
            >(value@),
            Err(error) => outcome(text.spec_bytes(), grammar::item(text.spec_bytes(), 0)) == Err::<
                ItemModel,
                SyntaxError,
            >(error),
        },
{
    let input = text.as_bytes();
    if input.len() > u32::MAX as usize {
        return Err(SyntaxError::TooLong);
    }
    match parse_item(input, 0) {
        Some((value, end)) => if end == input.len() {
            Ok(value)
        } else {
            Err(SyntaxError::Unparsed { span: span(end, input.len()) })
        },
        None => Err(SyntaxError::Unparsed { span: span(0, input.len()) }),
    }
}

/// Reads a whole text as an item.
pub fn item(text: &str) -> (result: Result<Item, SyntaxError>)
    ensures
        match result {
            Ok(value) => outcome(text.spec_bytes(), grammar::item(text.spec_bytes(), 0)) == Ok::<
                ItemModel,
                SyntaxError,
            >(value@),
            Err(error) => outcome(text.spec_bytes(), grammar::item(text.spec_bytes(), 0)) == Err::<
                ItemModel,
                SyntaxError,
            >(error),
        },
{
    let input = text.as_bytes();
    if input.len() > u32::MAX as usize {
        return Err(SyntaxError::TooLong);
    }
    match parse_item(input, 0) {
        Some((value, end)) => if end == input.len() {
            Ok(value)
        } else {
            Err(SyntaxError::Unparsed { span: span(end, input.len()) })
        },
        None => Err(SyntaxError::Unparsed { span: span(0, input.len()) }),
    }
}

/// Reads a whole text as a source file.
pub fn source_file(text: &str) -> (result: Result<SourceFile, SyntaxError>)
    ensures
        match result {
            Ok(file) => outcome(text.spec_bytes(), grammar::source_file(text.spec_bytes(), 0)) == Ok::<
                Seq<ItemModel>,
                SyntaxError,
            >(file@),
            Err(error) => outcome(text.spec_bytes(), grammar::source_file(text.spec_bytes(), 0))
                == Err::<Seq<ItemModel>, SyntaxError>(error),
        },
{
    let input = text.as_bytes();
    if input.len() > u32::MAX as usize {
        return Err(SyntaxError::TooLong);
    }
    let (items, end) = parse_items(input, skip_space(input, 0));
    if end == input.len() {
        Ok(SourceFile { items })
    } else {
        Err(SyntaxError::Unparsed { span: span(end, input.len()) })
    }
}

} // verus!
