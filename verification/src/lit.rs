//! What the lexer of the host language knows about literals and identifiers.
//!
//! The engines read literals by their source text. Turning that text into a
//! value is the work of `syn` and `proc_macro2`; the functions here make those
//! calls, and their contracts are taken on trust.

use vstd::prelude::*;

verus! {

/// The value that `syn::LitInt::base10_parse::<u32>` gives for the literal
/// with this source text; `None` where the text is no integer literal or the
/// value does not fit.
pub uninterp spec fn lit_int_value(text: Seq<char>) -> Option<u32>;

/// The unescaped content that `syn::LitStr::value` gives for the literal with
/// this source text; `None` where the text is no string literal.
pub uninterp spec fn lit_str_value(text: Seq<char>) -> Option<Seq<char>>;

/// Whether `syn::parse_str::<syn::Ident>` accepts this text. It accepts
/// neither a keyword nor a lone underscore.
pub uninterp spec fn ident_accepted(text: Seq<char>) -> bool;

/// The character of one decimal digit.
pub open spec fn digit_char(d: nat) -> char {
    if d == 0 {
        '0'
    } else if d == 1 {
        '1'
    } else if d == 2 {
        '2'
    } else if d == 3 {
        '3'
    } else if d == 4 {
        '4'
    } else if d == 5 {
        '5'
    } else if d == 6 {
        '6'
    } else if d == 7 {
        '7'
    } else if d == 8 {
        '8'
    } else {
        '9'
    }
}

/// The decimal text of a number, without sign, suffix or leading zeros.
pub open spec fn decimal_text(n: nat) -> Seq<char>
    decreases n,
{
    if n < 10 {
        seq![digit_char(n)]
    } else {
        decimal_text(n / 10).push(digit_char(n % 10))
    }
}

/// Reads an integer literal. Calls `proc_macro2::Literal::from_str`,
/// `syn::Lit::new` and `syn::LitInt::base10_parse::<u32>`; the contract only
/// gives the outcome its name.
#[verifier::external_body]
pub(crate) fn integer_value(text: &str) -> (r: Option<u32>)
    ensures
        r == lit_int_value(text@),
{
    match text.parse::<proc_macro2::Literal>() {
        Ok(token) => match syn::Lit::new(token) {
            syn::Lit::Int(number) => number.base10_parse::<u32>().ok(),
            _ => None,
        },
        Err(_) => None,
    }
}

/// Reads a string literal. Calls `proc_macro2::Literal::from_str`,
/// `syn::Lit::new` and `syn::LitStr::value`; the contract only gives the
/// outcome its name.
#[verifier::external_body]
pub(crate) fn string_value(text: &str) -> (r: Option<String>)
    ensures
        r is Some <==> lit_str_value(text@) is Some,
        r is Some ==> r.unwrap()@ == lit_str_value(text@).unwrap(),
{
    match text.parse::<proc_macro2::Literal>() {
        Ok(token) => match syn::Lit::new(token) {
            syn::Lit::Str(string) => Some(string.value()),
            _ => None,
        },
        Err(_) => None,
    }
}

/// Asks `syn::parse_str::<syn::Ident>` whether the text is an identifier; the
/// contract only gives the answer its name.
#[verifier::external_body]
pub(crate) fn is_identifier(text: &str) -> (r: bool)
    ensures
        r == ident_accepted(text@),
{
    syn::parse_str::<syn::Ident>(text).is_ok()
}

/// The text of the literal that `proc_macro2::Literal::u32_unsuffixed` makes:
/// the plain decimal digits of `n`.
#[verifier::external_body]
pub(crate) fn unsuffixed_text(n: u32) -> (r: String)
    ensures
        r@ == decimal_text(n as nat),
{
    proc_macro2::Literal::u32_unsuffixed(n).to_string()
}

} // verus!
