//! Source identifiers.

use vstd::prelude::*;
use vstd::std_specs::cmp::PartialEqSpecImpl;
use vstd::string::StringSliceAdditionalSpecFns;

use smol_str::SmolStr;

use crate::span::Span;

verus! {

/// `smol_str::SmolStr`, an immutable string that is cheap to copy.
#[verifier::external_type_specification]
#[verifier::external_body]
pub struct ExSmolStr(SmolStr);

/// The bytes of the text that a symbol holds.
pub uninterp spec fn symbol_bytes(symbol: SmolStr) -> Seq<u8>;

/// `SmolStr::new`: a symbol that holds the text it is given.
#[verifier::external_body]
fn symbol_new(text: &str) -> (symbol: SmolStr)
    ensures
        symbol_bytes(symbol) == text.spec_bytes(),
{
    SmolStr::new(text)
}

/// `SmolStr`'s `==`: whether two symbols hold the same text.
#[verifier::external_body]
fn symbol_eq(a: &SmolStr, b: &SmolStr) -> (same: bool)
    ensures
        same == (symbol_bytes(*a) == symbol_bytes(*b)),
{
    a == b
}

/// `SmolStr`'s `clone`: a symbol with the same text.
#[verifier::external_body]
fn symbol_clone(symbol: &SmolStr) -> (copy: SmolStr)
    ensures
        symbol_bytes(copy) == symbol_bytes(*symbol),
{
    symbol.clone()
}

/// `std::str::from_utf8` on bytes that are all ASCII, which are valid UTF-8:
/// the text that the bytes spell.
#[verifier::external_body]
fn ascii_text(bytes: &[u8]) -> (text: &str)
    requires
        forall|i: int| 0 <= i < bytes@.len() ==> bytes@[i] < 128,
    ensures
        text.spec_bytes() == bytes@,
{
    std::str::from_utf8(bytes).unwrap()
}

/// An identifier of the source text. Two names are equal when their symbols
/// are; the span says where the name stood and takes no part in that.
#[derive(Debug)]
pub struct Name {
    pub span: Span,
    pub symbol: SmolStr,
}

/// What a name is to the contracts: where it stood, and the bytes of its text.
pub struct NameModel {
    pub span: Span,
    pub text: Seq<u8>,
}

impl View for Name {
    type V = NameModel;

    open spec fn view(&self) -> NameModel {
        NameModel { span: self.span, text: symbol_bytes(self.symbol) }
    }
}

impl Name {
    /// The name `symbol`, which stood at `span`.
    pub fn new(span: Span, symbol: &str) -> (name: Name)
        ensures
            name@ == (NameModel { span, text: symbol.spec_bytes() }),
    {
        Name { span, symbol: symbol_new(symbol) }
    }

    /// The name that ASCII bytes spell.
    pub fn from_ascii(span: Span, symbol: &[u8]) -> (name: Name)
        requires
            forall|i: int| 0 <= i < symbol@.len() ==> symbol@[i] < 128,
        ensures
            name@ == (NameModel { span, text: symbol@ }),
    {
        Name { span, symbol: symbol_new(ascii_text(symbol)) }
    }

    /// Whether this name and `other` have the same symbol.
    pub fn same_symbol(&self, other: &Name) -> (same: bool)
        ensures
            same == (self@.text == other@.text),
    {
        symbol_eq(&self.symbol, &other.symbol)
    }
}

impl Clone for Name {
    fn clone(&self) -> (copy: Name)
        ensures
            copy@ == self@,
    {
        Name { span: self.span, symbol: symbol_clone(&self.symbol) }
    }
}

impl PartialEq for Name {
    fn eq(&self, other: &Name) -> (same: bool) {
        symbol_eq(&self.symbol, &other.symbol)
    }
}

impl PartialEqSpecImpl for Name {
    open spec fn obeys_eq_spec() -> bool {
        true
    }

    open spec fn eq_spec(&self, other: &Name) -> bool {
        self@.text == other@.text
    }
}

impl Eq for Name {

}

} // verus!
