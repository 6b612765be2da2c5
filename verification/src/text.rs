//! Small text helpers with precise specifications.

use vstd::prelude::*;

verus! {

/// The ASCII digit for `d` (`d < 10`).
pub open spec fn digit_char(d: nat) -> char {
    (48 + d) as char
}

/// The decimal representation of `n`, most significant digit first, with no
/// leading zeros (zero itself is `"0"`).
pub open spec fn decimal(n: nat) -> Seq<char>
    decreases n,
{
    if n < 10 {
        seq![digit_char(n)]
    } else {
        decimal(n / 10).push(digit_char(n % 10))
    }
}

/// Renders `value` in decimal.
///
/// Trusted: calls `ToString::to_string` on a `u64`, whose `Display`
/// implementation writes the plain decimal digits of the number.
#[verifier::external_body]
pub(crate) fn decimal_string(value: u64) -> (s: String)
    ensures
        s@ == decimal(value as nat),
{
    value.to_string()
}

/// Concatenates two strings.
pub fn concat(a: &str, b: &str) -> (s: String)
    ensures
        s@ == a@ + b@,
{
    let mut s = a.to_owned();
    s.append(b);
    s
}

} // verus!
