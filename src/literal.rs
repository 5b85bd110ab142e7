//! Reading literal tokens, through syn.

use vstd::prelude::*;

verus! {

/// The string that the source text of a literal token denotes, if the token is
/// a string literal.
pub uninterp spec fn str_literal_value(text: Seq<char>) -> Option<Seq<char>>;

/// Whether the text is a Rust identifier that is not a keyword.
pub uninterp spec fn is_identifier(s: Seq<char>) -> bool;

/// Relies on `syn::parse_str::<syn::LitStr>`, which accepts exactly one string
/// literal token, and on `LitStr::value`, which gives the unescaped string.
#[verifier::external_body]
pub(crate) fn decode_str_literal(text: &String) -> (r: Option<String>)
    ensures
        match r {
            Some(v) => str_literal_value(text@) == Some(v@),
            None => str_literal_value(text@) is None,
        },
{
    match syn::parse_str::<syn::LitStr>(text) {
        Ok(lit) => Some(lit.value()),
        Err(_) => None,
    }
}

/// Relies on `syn::parse_str::<syn::Ident>`, which accepts one identifier
/// that is not a keyword.
#[verifier::external_body]
pub(crate) fn check_identifier(s: &String) -> (r: bool)
    ensures
        r == is_identifier(s@),
{
    syn::parse_str::<syn::Ident>(s).is_ok()
}

} // verus!
