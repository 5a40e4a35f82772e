//! Broker addresses of the form `host:port`.

use crate::decimal::{all_digits, decimal_value, is_digit, lemma_decimal_value_grows};
use vstd::prelude::*;
use vstd::string::*;

verus! {

/// The port used when an address names none that can be read.
pub const DEFAULT_PORT: u16 = 1883;

/// `s` without one leading `+`, if it has one.
pub open spec fn without_plus(s: Seq<char>) -> Seq<char> {
    if s.len() > 0 && s[0] == '+' {
        s.skip(1)
    } else {
        s
    }
}

/// The port that `s` writes: an optional `+`, then one or more ASCII digits
/// whose value fits in sixteen bits. Anything else is no port.
pub open spec fn spec_parse_port(s: Seq<char>) -> Option<u16> {
    let digits = without_plus(s);
    if digits.len() > 0 && all_digits(digits) && decimal_value(digits) <= u16::MAX {
        Some(decimal_value(digits) as u16)
    } else {
        None
    }
}

/// Position `i` holds the only colon of `url`.
pub open spec fn sole_colon(url: Seq<char>, i: int) -> bool {
    &&& 0 <= i < url.len()
    &&& url[i] == ':'
    &&& forall|j: int| 0 <= j < url.len() && j != i ==> url[j] != ':'
}

/// `url` is a host, one colon and a port that can be read.
pub open spec fn well_formed(url: Seq<char>) -> bool {
    exists|i: int| sole_colon(url, i) && spec_parse_port(url.skip(i + 1)) is Some
}

/// Host and port of `url`: split at its only colon when what follows is a
/// port, and otherwise the whole text with the default port.
pub open spec fn spec_parse_url(url: Seq<char>) -> (Seq<char>, u16) {
    if well_formed(url) {
        let i = choose|i: int| sole_colon(url, i) && spec_parse_port(url.skip(i + 1)) is Some;
        (url.take(i), spec_parse_port(url.skip(i + 1))->0)
    } else {
        (url, DEFAULT_PORT)
    }
}

/// Reads a port number as `u16::from_str` does.
pub fn parse_port(s: &str) -> (port: Option<u16>)
    ensures
        port == spec_parse_port(s@),
{
    let n: usize = s.unicode_len();
    let start: usize = if n > 0 && s.get_char(0) == '+' { 1 } else { 0 };
    if start == n {
        return None;
    }
    let ghost digits = without_plus(s@);
    let mut value: u32 = 0;
    let mut i: usize = start;
    while i < n
        invariant
            start <= i <= n,
            n == s@.len(),
            digits == s@.skip(start as int),
            digits == without_plus(s@),
            all_digits(digits.take(i - start)),
            value == decimal_value(digits.take(i - start)),
            value <= u16::MAX,
        decreases n - i,
    {
        let c: char = s.get_char(i);
        let code: u32 = c as u32;
        proof {
            assert(digits.take(i + 1 - start).drop_last() =~= digits.take(i - start));
        }
        if code < 48 || code > 57 {
            assert(!is_digit(digits[i - start]));
            return None;
        }
        let next: u32 = value * 10 + (code - 48);
        if next > 65535 {
            proof {
                lemma_decimal_value_grows(digits, i + 1 - start);
            }
            return None;
        }
        value = next;
        i = i + 1;
    }
    assert(digits.take(n - start) =~= digits);
    Some(value as u16)
}

/// Splits `url` into host and port. An address that is not a host, one
/// colon and a readable port is taken whole as the host, with the default
/// port.
pub fn parse_url(url: &str) -> (address: (String, u16))
    ensures
        (address.0@, address.1) == spec_parse_url(url@),
{
    let n: usize = url.unicode_len();
    let mut colons: usize = 0;
    let mut first: usize = 0;
    let ghost mut second: int = 0;
    let mut i: usize = 0;
    while i < n
        invariant
            i <= n,
            n == url@.len(),
            colons <= 2,
            colons == 0 ==> forall|j: int| 0 <= j < i ==> url@[j] != ':',
            colons == 1 ==> first < i && url@[first as int] == ':' && forall|j: int|
                0 <= j < i && j != first ==> url@[j] != ':',
            colons == 2 ==> 0 <= first < second < i && url@[first as int] == ':' && url@[second]
                == ':',
        decreases n - i,
    {
        if url.get_char(i) == ':' {
            if colons == 0 {
                first = i;
                colons = 1;
            } else if colons == 1 {
                proof {
                    second = i as int;
                }
                colons = 2;
            }
        }
        i = i + 1;
    }
    if colons == 1 {
        assert(sole_colon(url@, first as int));
        let tail = url.substring_char(first + 1, n);
        match parse_port(tail) {
            Some(port) => {
                let head = url.substring_char(0, first);
                (head.to_owned(), port)
            },
            None => {
                (url.to_owned(), DEFAULT_PORT)
            },
        }
    } else {
        (url.to_owned(), DEFAULT_PORT)
    }
}

/// An address with one colon and a readable port behind it is split there.
pub proof fn lemma_split_at_sole_colon(url: Seq<char>, i: int)
    requires
        sole_colon(url, i),
        spec_parse_port(url.skip(i + 1)) is Some,
    ensures
        spec_parse_url(url) == (url.take(i), spec_parse_port(url.skip(i + 1))->0),
        forall|j: int| 0 <= j < url.take(i).len() ==> url.take(i)[j] != ':',
{
}

/// An address without a colon, with more than one, or with no readable port
/// behind its colon is a host as it stands, on the default port.
pub proof fn lemma_malformed_is_host(url: Seq<char>)
    requires
        (forall|i: int| 0 <= i < url.len() ==> url[i] != ':') || (exists|i: int, j: int|
            0 <= i < j < url.len() && url[i] == ':' && url[j] == ':') || (exists|i: int|
            sole_colon(url, i) && spec_parse_port(url.skip(i + 1)) is None),
    ensures
        spec_parse_url(url) == (url, DEFAULT_PORT),
{
}

} // verus!
