use vstd::prelude::*;

verus! {

/// Whether a character is one of the ASCII digits `0` to `9`.
pub open spec fn is_decimal_digit(c: char) -> bool {
    '0' as int <= c as int && c as int <= '9' as int
}

/// The value of an ASCII digit.
pub open spec fn decimal_digit_value(c: char) -> nat {
    (c as int - '0' as int) as nat
}

/// Value of a string of decimal digits in which `_` separators are skipped.
pub open spec fn decimal_value(s: Seq<char>) -> nat
    decreases s.len(),
{
    if s.len() == 0 {
        0
    } else if s.last() == '_' {
        decimal_value(s.drop_last())
    } else {
        decimal_value(s.drop_last()) * 10 + decimal_digit_value(s.last())
    }
}

/// The number that `str::parse::<isize>` reads: an optional `+` or `-`, then one or more
/// ASCII digits and nothing else, with a value in the range of `isize`. `None` for any
/// other string.
pub open spec fn signed_decimal(s: Seq<char>) -> Option<int> {
    let signed = s.len() > 0 && (s[0] == '-' || s[0] == '+');
    let digits = if signed { s.drop_first() } else { s };
    let magnitude = decimal_value(digits) as int;
    let v = if s.len() > 0 && s[0] == '-' { -magnitude } else { magnitude };
    if digits.len() > 0 && (forall|i: int| 0 <= i < digits.len() ==> is_decimal_digit(#[trigger] digits[i]))
        && isize::MIN <= v && v <= isize::MAX {
        Some(v)
    } else {
        None
    }
}

/// `str::parse::<isize>`, with its error dropped: the documented grammar is an optional
/// sign followed by decimal digits, refused where the value does not fit in `isize`.
#[verifier::external_body]
pub(crate) fn parse_isize(s: &str) -> (r: Option<isize>)
    ensures
        r is None <==> signed_decimal(s@) is None,
        r matches Some(v) ==> signed_decimal(s@) == Some(v as int),
{
    s.parse::<isize>().ok()
}

} // verus!
