//! Reading the literals that stand in attributes.
use vstd::prelude::*;
use syn::Lit;

verus! {

/// What a literal is, with its value where the value is plain.
#[derive(Debug, PartialEq, Eq)]
pub enum LiteralValue {
    /// A string literal, with the string it denotes, escapes resolved.
    Str(String),
    /// A byte string literal.
    ByteStr,
    /// A C string literal.
    CStr,
    /// A byte literal.
    Byte,
    /// A character literal, with the character it denotes.
    Char(char),
    /// An integer literal, as it is written: its digits and its suffix.
    Int(String),
    /// A floating point literal.
    Float,
    /// `true` or `false`.
    Bool(bool),
    /// A literal of a form that is not looked into.
    Verbatim,
    /// No literal at all.
    Unreadable,
}

/// The mathematical value of a [`LiteralValue`].
pub enum LiteralModel {
    Str(Seq<char>),
    ByteStr,
    CStr,
    Byte,
    Char(char),
    Int(Seq<char>),
    Float,
    Bool(bool),
    Verbatim,
    Unreadable,
}

impl View for LiteralValue {
    type V = LiteralModel;

    open spec fn view(&self) -> LiteralModel {
        match *self {
            LiteralValue::Str(value) => LiteralModel::Str(value@),
            LiteralValue::ByteStr => LiteralModel::ByteStr,
            LiteralValue::CStr => LiteralModel::CStr,
            LiteralValue::Byte => LiteralModel::Byte,
            LiteralValue::Char(c) => LiteralModel::Char(c),
            LiteralValue::Int(written) => LiteralModel::Int(written@),
            LiteralValue::Float => LiteralModel::Float,
            LiteralValue::Bool(b) => LiteralModel::Bool(b),
            LiteralValue::Verbatim => LiteralModel::Verbatim,
            LiteralValue::Unreadable => LiteralModel::Unreadable,
        }
    }
}

/// What `syn` reads the source text of a literal as: the kind of literal, and
/// with it what a string or character literal denotes, how an integer literal
/// is written, and which of the two a boolean literal is. `Unreadable` for a
/// text that is not one literal.
pub uninterp spec fn literal_value(text: Seq<char>) -> LiteralModel;

/// Parses `text` with `syn::parse_str::<syn::Lit>` and tells the kind that
/// comes back, with `LitStr::value`, `LitChar::value`, the text of a `LitInt`
/// or the `value` of a `LitBool`. The contract gives the outcome the name
/// [`literal_value`]; it claims nothing else of it.
#[verifier::external_body]
pub(crate) fn read_literal(text: &String) -> (r: LiteralValue)
    ensures
        r@ == literal_value(text@),
{
    match syn::parse_str::<Lit>(text.as_str()) {
        Ok(Lit::Str(x)) => LiteralValue::Str(x.value()),
        Ok(Lit::ByteStr(_)) => LiteralValue::ByteStr,
        Ok(Lit::CStr(_)) => LiteralValue::CStr,
        Ok(Lit::Byte(_)) => LiteralValue::Byte,
        Ok(Lit::Char(x)) => LiteralValue::Char(x.value()),
        Ok(Lit::Int(x)) => LiteralValue::Int(x.to_string()),
        Ok(Lit::Float(_)) => LiteralValue::Float,
        Ok(Lit::Bool(x)) => LiteralValue::Bool(x.value),
        Ok(Lit::Verbatim(_)) => LiteralValue::Verbatim,
        _ => LiteralValue::Unreadable,
    }
}

/// The string that a literal denotes, where it is a string literal.
pub open spec fn string_of(reading: LiteralModel) -> Option<Seq<char>> {
    match reading {
        LiteralModel::Str(value) => Some(value),
        _ => None,
    }
}

/// The string that the source text of a literal denotes, where it is one
/// string literal.
pub open spec fn string_literal_value(text: Seq<char>) -> Option<Seq<char>> {
    string_of(literal_value(text))
}

/// The string that a literal denotes, where it is a string literal. Only a
/// string literal names a place; no other kind of literal does.
pub fn string_value(reading: LiteralValue) -> (r: Option<String>)
    ensures
        match r {
            Some(value) => string_of(reading@) == Some(value@),
            None => string_of(reading@) is None,
        },
{
    match reading {
        LiteralValue::Str(value) => Some(value),
        _ => None,
    }
}

} // verus!
