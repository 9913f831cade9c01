//! The calls into the Rust syntax crates and the case converter that the
//! generators make. Each item marked `external_body` here is trusted: its
//! contract restates what the outside function does and is not proved.
use vstd::prelude::*;
use heck::ToUpperCamelCase;
use crate::text::same_text;

verus! {

/// The identifier that `syn` reads from the text, as it prints; `None`
/// when the text is not one identifier (keywords and `_` are not). The
/// text may hold spaces or comments around the identifier.
pub uninterp spec fn parsed_ident(s: Seq<char>) -> Option<Seq<char>>;

/// The text is exactly one identifier, with nothing around it (raw
/// identifiers included, keywords excluded).
pub open spec fn rust_ident(s: Seq<char>) -> bool {
    parsed_ident(s) == Some(s)
}

/// The text of a string literal holding `s`, as `proc_macro2` prints it:
/// in double quotes, with the characters escaped.
pub uninterp spec fn string_literal_text(s: Seq<char>) -> Seq<char>;

/// The text as `heck` writes it in UpperCamelCase.
pub uninterp spec fn upper_camel(s: Seq<char>) -> Seq<char>;

/// Calls `syn::parse_str::<syn::Ident>` and, on success, prints the
/// identifier with `to_string`; the result is the named function of the
/// text.
#[verifier::external_body]
pub(crate) fn parse_ident(s: &str) -> (r: Option<String>)
    ensures
        match r {
            Some(t) => parsed_ident(s@) == Some(t@),
            None => parsed_ident(s@) is None,
        },
{
    syn::parse_str::<syn::Ident>(s).ok().map(|i| i.to_string())
}

/// Whether the text is exactly one identifier.
pub fn is_rust_ident(s: &str) -> (b: bool)
    ensures
        b == rust_ident(s@),
{
    match parse_ident(s) {
        Some(t) => same_text(t.as_str(), s),
        None => false,
    }
}

/// Calls `proc_macro2::Literal::string` and prints the literal with
/// `to_string`; the result is the named function of the text.
#[verifier::external_body]
pub(crate) fn string_literal(s: &str) -> (r: String)
    ensures
        r@ == string_literal_text(s@),
{
    proc_macro2::Literal::string(s).to_string()
}

/// Calls `heck::ToUpperCamelCase::to_upper_camel_case`; the result is the
/// named function of the text.
#[verifier::external_body]
pub(crate) fn to_upper_camel(s: &str) -> (r: String)
    ensures
        r@ == upper_camel(s@),
{
    s.to_upper_camel_case()
}

} // verus!
