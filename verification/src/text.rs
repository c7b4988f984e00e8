//! Text that error messages are made of: decimal numbers and the debug
//! form of strings, through std's formatting.
use vstd::prelude::*;

verus! {

/// The decimal digit `d` as a character.
pub open spec fn digit_char(d: int) -> char {
    (0x30 + d) as char
}

/// The decimal form of `v`, without leading zeros.
pub open spec fn decimal_chars(v: u8) -> Seq<char> {
    let n = v as int;
    if n < 10 {
        seq![digit_char(n)]
    } else if n < 100 {
        seq![digit_char(n / 10), digit_char(n % 10)]
    } else {
        seq![digit_char(n / 100), digit_char((n / 10) % 10), digit_char(n % 10)]
    }
}

/// The decimal digit `d` as a one-character string.
fn digit_str(d: u8) -> (s: &'static str)
    requires
        d < 10,
    ensures
        s@ == seq![digit_char(d as int)],
{
    proof {
        reveal_strlit("0");
        reveal_strlit("1");
        reveal_strlit("2");
        reveal_strlit("3");
        reveal_strlit("4");
        reveal_strlit("5");
        reveal_strlit("6");
        reveal_strlit("7");
        reveal_strlit("8");
        reveal_strlit("9");
    }
    match d {
        0 => "0",
        1 => "1",
        2 => "2",
        3 => "3",
        4 => "4",
        5 => "5",
        6 => "6",
        7 => "7",
        8 => "8",
        _ => "9",
    }
}

/// The decimal form of `v`, without sign, padding or leading zeros.
pub fn u8_decimal(v: u8) -> (s: String)
    ensures
        s@ == decimal_chars(v),
{
    if v < 10 {
        String::from_str(digit_str(v))
    } else if v < 100 {
        let mut s = String::from_str(digit_str(v / 10));
        s.append(digit_str(v % 10));
        s
    } else {
        let mut s = String::from_str(digit_str(v / 100));
        s.append(digit_str((v / 10) % 10));
        s.append(digit_str(v % 10));
        s
    }
}

/// What `format!("{:?}", s)` gives for a string `s`: the string quoted,
/// with std's escapes.
pub uninterp spec fn str_debug(s: Seq<char>) -> Seq<char>;

/// What `format!("{:?}", o)` gives for an optional string `o`: `None`, or
/// `Some(`, the debug form of the string and `)`.
pub open spec fn opt_string_debug(o: Option<Seq<char>>) -> Seq<char> {
    match o {
        Some(s) => "Some("@ + str_debug(s) + ")"@,
        None => "None"@,
    }
}

/// The view of an optional string.
pub open spec fn opt_view(o: Option<String>) -> Option<Seq<char>> {
    match o {
        Some(s) => Some(s@),
        None => None,
    }
}

/// The debug form of a string, through `format!("{:?}", s)`; its text is
/// the name `str_debug` and nothing more is stated of it.
#[verifier::external_body]
pub(crate) fn debug_str(s: &str) -> (d: String)
    ensures
        d@ == str_debug(s@),
{
    format!("{:?}", s)
}

/// The debug form of an optional string, through `format!("{:?}", o)`:
/// the derived `Debug` of `Option` writes `None`, or `Some(` followed by the
/// string's own debug form and `)`.
#[verifier::external_body]
pub(crate) fn debug_opt_string(o: &Option<String>) -> (d: String)
    ensures
        d@ == opt_string_debug(opt_view(*o)),
{
    format!("{:?}", o)
}

} // verus!
