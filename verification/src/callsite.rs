//! The names that a generated call site and the engine agree on: for a
//! hot-reloadable function the generator emits the body under one name, the
//! signature marker under another, and a lock that guards the slot.

use vstd::prelude::*;
use crate::text::{concat3, marker_name, marker_of};

verus! {

/// The name under which the body of the function `ident` is emitted.
pub open spec fn implementation_ident(ident: Seq<char>) -> Seq<char> {
    "__"@ + ident + "_fn_impl"@
}

/// The name under which the body of the function `ident` is emitted.
pub fn implementation_name(ident: &str) -> (name: String)
    ensures
        name@ == implementation_ident(ident@),
{
    concat3("__", ident, "_fn_impl")
}

/// The name under which the signature marker of the function `ident` is
/// emitted: that of its body with the marker suffix.
pub fn marker_ident(ident: &str) -> (name: String)
    ensures
        name@ == marker_of(implementation_ident(ident@)),
{
    let body = implementation_name(ident);
    marker_name(body.as_str())
}

/// The upper-case form that `str::to_uppercase` gives to a text.
pub uninterp spec fn uppercased(text: Seq<char>) -> Seq<char>;

/// Calls `str::to_uppercase`. Trusted: the result depends on the text alone.
#[verifier::external_body]
fn to_uppercase(text: &str) -> (upper: String)
    ensures
        upper@ == uppercased(text@),
{
    text.to_uppercase()
}

/// The name of the lock that guards the slot of the function `ident`.
pub fn lock_name(ident: &str) -> (name: String)
    ensures
        name@ == "__"@ + uppercased(ident@) + "_FN_MUTEX"@,
{
    let upper = to_uppercase(ident);
    concat3("__", upper.as_str(), "_FN_MUTEX")
}

/// The character of a decimal digit.
pub open spec fn digit_char(digit: nat) -> char {
    if digit == 0 {
        '0'
    } else if digit == 1 {
        '1'
    } else if digit == 2 {
        '2'
    } else if digit == 3 {
        '3'
    } else if digit == 4 {
        '4'
    } else if digit == 5 {
        '5'
    } else if digit == 6 {
        '6'
    } else if digit == 7 {
        '7'
    } else if digit == 8 {
        '8'
    } else {
        '9'
    }
}

/// A number in decimal notation, without leading zeros.
pub open spec fn decimal(n: nat) -> Seq<char>
    decreases n,
{
    if n < 10 {
        seq![digit_char(n)]
    } else {
        decimal(n / 10) + seq![digit_char(n % 10)]
    }
}

/// The text of a decimal digit.
fn digit_text(digit: usize) -> (text: &'static str)
    requires
        digit < 10,
    ensures
        text@ == seq![digit_char(digit as nat)],
{
    proof {
        reveal_strlit("0");
        reveal_strlit("1");
        reveal_strlit("2");
        reveal_strlit("3");
        reveal_strlit("4");
        reveal_strlit("5");
        reveal_strlit("6");
        reveal_strlit("7");
        reveal_strlit("8");
        reveal_strlit("9");
    }
    let text = if digit == 0 {
        "0"
    } else if digit == 1 {
        "1"
    } else if digit == 2 {
        "2"
    } else if digit == 3 {
        "3"
    } else if digit == 4 {
        "4"
    } else if digit == 5 {
        "5"
    } else if digit == 6 {
        "6"
    } else if digit == 7 {
        "7"
    } else if digit == 8 {
        "8"
    } else {
        "9"
    };
    assert(text@ =~= seq![digit_char(digit as nat)]);
    text
}

/// A number in decimal notation.
pub fn decimal_text(n: usize) -> (text: String)
    ensures
        text@ == decimal(n as nat),
    decreases n,
{
    if n < 10 {
        String::from_str(digit_text(n))
    } else {
        let mut text = decimal_text(n / 10);
        text.append(digit_text(n % 10));
        text
    }
}

/// The name that the wrapper gives to its argument at `index`.
pub fn argument_name(index: usize) -> (name: String)
    ensures
        name@ == "_arg"@ + decimal(index as nat),
{
    let mut name = String::from_str("_arg");
    let digits = decimal_text(index);
    name.append(digits.as_str());
    name
}

} // verus!
