//! Command-line settings of the server and the checks applied to them.

use vstd::prelude::*;
use crate::text::{chars_of, decimal, digit_char};

verus! {

/// The settings the server runs with.
#[derive(Clone, Debug)]
pub struct Args {
    pub rocket_port: u16,
    pub zeronet_path: String,
    pub site_address: String,
}

/// `c` is an ASCII decimal digit.
pub open spec fn is_digit(c: char) -> bool {
    '0' <= c <= '9'
}

/// The value of a string of decimal digits.
pub open spec fn digits_value(s: Seq<char>) -> nat
    decreases s.len(),
{
    if s.len() == 0 {
        0
    } else {
        digits_value(s.drop_last()) * 10 + ((s.last() as nat) - ('0' as nat)) as nat
    }
}

/// The digits that follow an optional leading `+`.
pub open spec fn unsigned_digits(s: Seq<char>) -> Seq<char> {
    if s.len() > 0 && s[0] == '+' {
        s.drop_first()
    } else {
        s
    }
}

/// What Rust's `str::parse::<u16>` returns for `s`: an optional `+` followed by
/// at least one decimal digit, with a value of at most 65535.
pub open spec fn spec_parse_u16(s: Seq<char>) -> Option<u16> {
    let d = unsigned_digits(s);
    if d.len() > 0 && (forall|i: int| 0 <= i < d.len() ==> is_digit(#[trigger] d[i]))
        && digits_value(d) <= 65535 {
        Some(digits_value(d) as u16)
    } else {
        None
    }
}

/// A value of a longer digit string is at least that of its prefix.
proof fn lemma_digits_value_prefix(s: Seq<char>, k: int)
    requires
        0 <= k <= s.len(),
        forall|i: int| 0 <= i < s.len() ==> is_digit(#[trigger] s[i]),
    ensures
        digits_value(s.take(k)) <= digits_value(s),
    decreases s.len() - k,
{
    if k < s.len() {
        lemma_digits_value_prefix(s, k + 1);
        assert(s.take(k + 1).drop_last() =~= s.take(k));
        assert(is_digit(s[k]));
    } else {
        assert(s.take(k) =~= s);
    }
}

/// Parses a port number as `str::parse::<u16>` does.
pub fn parse_u16(s: &str) -> (r: Option<u16>)
    ensures
        r == spec_parse_u16(s@),
{
    let cs = chars_of(s);
    let start: usize = if cs.len() > 0 && cs[0] == '+' { 1 } else { 0 };
    let ghost d = unsigned_digits(s@);
    assert(d =~= cs@.skip(start as int));
    if start >= cs.len() {
        return None;
    }
    let mut acc: u32 = 0;
    let mut i: usize = start;
    while i < cs.len()
        invariant
            cs@ == s@,
            start <= i <= cs.len(),
            d == cs@.skip(start as int),
            d == unsigned_digits(s@),
            forall|j: int| 0 <= j < i - start ==> is_digit(#[trigger] d[j]),
            acc as nat == digits_value(d.take(i - start)),
            acc <= 65535,
        decreases cs.len() - i,
    {
        let c = cs[i];
        assert(c == d[i - start]);
        if !('0' <= c && c <= '9') {
            assert(!is_digit(d[i - start]));
            return None;
        }
        let digit: u32 = (c as u32) - ('0' as u32);
        assert(d.take(i - start + 1).drop_last() =~= d.take(i - start));
        acc = acc * 10 + digit;
        if acc > 65535 {
            proof {
                if forall|j: int| 0 <= j < d.len() ==> is_digit(#[trigger] d[j]) {
                    lemma_digits_value_prefix(d, i - start + 1);
                }
            }
            return None;
        }
        i = i + 1;
    }
    assert(d.take(d.len() as int) =~= d);
    Some(acc as u16)
}


/// The message with which a port setting that is not a `u16` is refused.
pub open spec fn not_u16_message(v: Seq<char>) -> Seq<char> {
    "'"@ + v + "' cannot be parsed to u16."@
}

/// Checks that a port setting parses as a `u16`; otherwise says why not.
pub fn is_u16(v: String) -> (r: Result<(), String>)
    ensures
        r is Ok <==> spec_parse_u16(v@) is Some,
        r matches Err(m) ==> m@ == not_u16_message(v@),
{
    match parse_u16(v.as_str()) {
        Some(_) => Ok(()),
        None => {
            let mut m = String::from_str("'");
            m.append(v.as_str());
            m.append("' cannot be parsed to u16.");
            Err(m)
        },
    }
}

/// The settings made of the given values: all three must be present and the
/// port must parse as a `u16`.
pub open spec fn spec_args(rocket_port: Option<Seq<char>>, zeronet_path: Option<Seq<char>>, site_address: Option<Seq<char>>) -> bool {
    rocket_port matches Some(p) && spec_parse_u16(p) is Some && zeronet_path is Some && site_address is Some
}

/// The characters of an optional string slice.
pub open spec fn opt_view(o: Option<&str>) -> Option<Seq<char>> {
    match o {
        Some(s) => Some(s@),
        None => None,
    }
}

/// Builds the settings from the values given for them, or `None` when one is
/// missing or the port is not a `u16`.
pub fn args_from_values(rocket_port: Option<&str>, zeronet_path: Option<&str>, site_address: Option<&str>) -> (r: Option<Args>)
    ensures
        r is Some <==> spec_args(
            opt_view(rocket_port),
            opt_view(zeronet_path),
            opt_view(site_address),
        ),
        r matches Some(a) ==> {
            &&& rocket_port matches Some(p) && Some(a.rocket_port) == spec_parse_u16(p@)
            &&& zeronet_path matches Some(z) && a.zeronet_path@ == z@
            &&& site_address matches Some(s) && a.site_address@ == s@
        },
{
    let port = match rocket_port {
        Some(p) => match parse_u16(p) {
            Some(n) => n,
            None => return None,
        },
        None => return None,
    };
    let zeronet_path = match zeronet_path {
        Some(z) => String::from_str(z),
        None => return None,
    };
    let site_address = match site_address {
        Some(s) => String::from_str(s),
        None => return None,
    };
    Some(Args { rocket_port: port, zeronet_path, site_address })
}

/// A port setting that passes `is_u16` is accepted when the settings are built,
/// with the value `is_u16` checked.
pub proof fn lemma_validated_port_accepted(v: Seq<char>, zeronet_path: Seq<char>, site_address: Seq<char>)
    requires
        spec_parse_u16(v) is Some,
    ensures
        spec_args(Some(v), Some(zeronet_path), Some(site_address)),
{
}

/// The decimal notation of a number is made of digits and has that number as
/// its value.
pub proof fn lemma_decimal_digits(n: nat)
    ensures
        decimal(n).len() > 0,
        forall|i: int| 0 <= i < decimal(n).len() ==> is_digit(#[trigger] decimal(n)[i]),
        digits_value(decimal(n)) == n,
    decreases n,
{
    assert(digit_char(n % 10) as nat == n % 10 + 48);
    if n >= 10 {
        assert((n / 10) * 10 + n % 10 == n) by (nonlinear_arith);
        lemma_decimal_digits(n / 10);
        let d = decimal(n / 10);
        assert(decimal(n) == d.push(digit_char(n % 10)));
        assert(decimal(n).drop_last() =~= d);
        assert forall|i: int| 0 <= i < decimal(n).len() implies is_digit(#[trigger] decimal(n)[i]) by {
            if i < d.len() {
                assert(decimal(n)[i] == d[i]);
            }
        }
        assert(decimal(n).last() == digit_char(n % 10));
        assert(digits_value(decimal(n)) == digits_value(d) * 10 + n % 10);
    } else {
        assert(decimal(n).drop_last() =~= Seq::<char>::empty());
        assert(digits_value(Seq::<char>::empty()) == 0);
        assert(decimal(n).last() == digit_char(n));
    }
}

/// Every port, written in decimal, parses back to itself.
pub proof fn lemma_port_roundtrip(port: u16)
    ensures
        spec_parse_u16(decimal(port as nat)) == Some(port),
{
    lemma_decimal_digits(port as nat);
    let d = decimal(port as nat);
    assert(is_digit(d[0]));
    assert(unsigned_digits(d) == d);
}

} // verus!
