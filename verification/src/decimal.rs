//! Numbers written in decimal digits.

use vstd::prelude::*;
use vstd::string::*;

verus! {

/// `c` is one of the ASCII digits `0` to `9`.
pub open spec fn is_digit(c: char) -> bool {
    48 <= c as int && c as int <= 57
}

/// The number that the digit `c` stands for.
pub open spec fn digit_value(c: char) -> nat {
    (c as int - 48) as nat
}

/// Every character of `s` is an ASCII digit.
pub open spec fn all_digits(s: Seq<char>) -> bool {
    forall|i: int| 0 <= i < s.len() ==> is_digit(#[trigger] s[i])
}

/// The number written by the digits of `s`, most significant first.
pub open spec fn decimal_value(s: Seq<char>) -> nat
    decreases s.len(),
{
    if s.len() == 0 {
        0
    } else {
        decimal_value(s.drop_last()) * 10 + digit_value(s.last())
    }
}

/// Reading on never lowers the number: the first `k` digits of `s` are
/// worth no more than all of `s`.
pub proof fn lemma_decimal_value_grows(s: Seq<char>, k: int)
    requires
        0 <= k <= s.len(),
    ensures
        decimal_value(s.take(k)) <= decimal_value(s),
    decreases s.len() - k,
{
    if k < s.len() {
        lemma_decimal_value_grows(s, k + 1);
        assert(s.take(k + 1).drop_last() =~= s.take(k));
    } else {
        assert(s.take(k) =~= s);
    }
}

/// The digit that writes `d`, for `d` below ten.
pub open spec fn digit_char(d: nat) -> char {
    (d + 48) as char
}

/// `n` in decimal digits, without leading zeros.
pub open spec fn decimal_repr(n: nat) -> Seq<char>
    decreases n,
{
    if n < 10 {
        seq![digit_char(n)]
    } else {
        decimal_repr(n / 10).push(digit_char(n % 10))
    }
}

/// `n` in decimal digits, with a leading `-` when it is negative.
pub open spec fn signed_repr(n: int) -> Seq<char> {
    if n < 0 {
        seq!['-'] + decimal_repr((-n) as nat)
    } else {
        decimal_repr(n as nat)
    }
}

/// Reading back what `decimal_repr` wrote gives the number again.
pub proof fn lemma_decimal_roundtrip(n: nat)
    ensures
        decimal_repr(n).len() > 0,
        all_digits(decimal_repr(n)),
        decimal_value(decimal_repr(n)) == n,
    decreases n,
{
    if n < 10 {
        assert(decimal_value(decimal_repr(n).drop_last()) == 0);
    } else {
        lemma_decimal_roundtrip(n / 10);
        assert(decimal_repr(n).drop_last() =~= decimal_repr(n / 10));
    }
}

/// Different numbers are written differently.
pub proof fn lemma_decimal_repr_injective(a: nat, b: nat)
    requires
        decimal_repr(a) == decimal_repr(b),
    ensures
        a == b,
{
    lemma_decimal_roundtrip(a);
    lemma_decimal_roundtrip(b);
}

/// The one-character text of a digit.
fn digit_str(d: u64) -> (s: &'static str)
    requires
        d < 10,
    ensures
        s@ == seq![digit_char(d as nat)],
{
    proof {
        reveal_strlit("0");
        reveal_strlit("1");
        reveal_strlit("2");
        reveal_strlit("3");
        reveal_strlit("4");
        reveal_strlit("5");
        reveal_strlit("6");
        reveal_strlit("7");
        reveal_strlit("8");
        reveal_strlit("9");
    }
    let s = if d == 0 {
        "0"
    } else if d == 1 {
        "1"
    } else if d == 2 {
        "2"
    } else if d == 3 {
        "3"
    } else if d == 4 {
        "4"
    } else if d == 5 {
        "5"
    } else if d == 6 {
        "6"
    } else if d == 7 {
        "7"
    } else if d == 8 {
        "8"
    } else {
        "9"
    };
    s
}

/// Appends `n` in decimal digits to `out`.
pub fn push_decimal(out: &mut String, n: u64)
    ensures
        final(out)@ == old(out)@ + decimal_repr(n as nat),
    decreases n,
{
    if n >= 10 {
        push_decimal(out, n / 10);
    }
    out.append(digit_str(n % 10));
}

/// `n` as text, as `u64::to_string` writes it.
pub fn u64_to_string(n: u64) -> (text: String)
    ensures
        text@ == decimal_repr(n as nat),
{
    let mut text = String::new();
    push_decimal(&mut text, n);
    text
}

/// `n` as text, as `i64::to_string` writes it.
pub fn i64_to_string(n: i64) -> (text: String)
    ensures
        text@ == signed_repr(n as int),
{
    if n < 0 {
        let magnitude: u64 = (-(n + 1)) as u64 + 1;
        let mut text = String::from_str("-");
        proof {
            reveal_strlit("-");
        }
        push_decimal(&mut text, magnitude);
        text
    } else {
        u64_to_string(n as u64)
    }
}

} // verus!
