//! The grammar of a bind address: a host, a colon, and a port.
//!
//! An address is split at its last colon. What follows the colon must be a
//! port: an optional `+` and one or more decimal digits whose value is at most
//! 65535. What precedes it is the host, which this grammar does not look into:
//! whether a host exists is for name resolution to say, when the address is
//! bound.

use vstd::prelude::*;
use vstd::string::*;

verus! {

/// A bind address, taken apart.
#[derive(Debug, PartialEq, Eq)]
pub struct HostPort {
    pub host: String,
    pub port: u16,
}

/// The mathematical value of a [`HostPort`].
pub struct HostPortModel {
    pub host: Seq<char>,
    pub port: u16,
}

impl View for HostPort {
    type V = HostPortModel;

    open spec fn view(&self) -> HostPortModel {
        HostPortModel { host: self.host@, port: self.port }
    }
}

/// Whether `c` is one of the ten decimal digits.
pub open spec fn is_digit(c: char) -> bool {
    '0' <= c && c <= '9'
}

/// The value of the decimal digit `c`.
pub open spec fn digit_value(c: char) -> nat {
    (c as u32 - '0' as u32) as nat
}

/// Whether every character of `text` is a decimal digit.
pub open spec fn all_digits(text: Seq<char>) -> bool {
    forall|i: int| 0 <= i < text.len() ==> is_digit(#[trigger] text[i])
}

/// The number that the decimal digits `digits` write.
pub open spec fn decimal_value(digits: Seq<char>) -> nat
    decreases digits.len(),
{
    if digits.len() == 0 {
        0
    } else {
        10 * decimal_value(digits.drop_last()) + digit_value(digits.last())
    }
}

/// `text` without its leading `+`, if it has one.
pub open spec fn without_sign(text: Seq<char>) -> Seq<char> {
    if text.len() > 0 && text[0] == '+' {
        text.drop_first()
    } else {
        text
    }
}

/// The port that `text` writes, if it writes one.
pub open spec fn port_of(text: Seq<char>) -> Option<u16> {
    let digits = without_sign(text);
    if digits.len() > 0 && all_digits(digits) && decimal_value(digits) <= u16::MAX {
        Some(decimal_value(digits) as u16)
    } else {
        None
    }
}

/// The position of the last `c` in `text`, or -1 if `text` holds none.
pub open spec fn last_index_of(text: Seq<char>, c: char) -> int
    decreases text.len(),
{
    if text.len() == 0 {
        -1
    } else if text.last() == c {
        text.len() - 1
    } else {
        last_index_of(text.drop_last(), c)
    }
}

/// The host and port that `address` names, if it is of the form host:port.
pub open spec fn host_port_of(address: Seq<char>) -> Option<HostPortModel> {
    let colon = last_index_of(address, ':');
    if colon < 0 {
        None
    } else {
        match port_of(address.subrange(colon + 1, address.len() as int)) {
            Some(port) => Some(HostPortModel { host: address.subrange(0, colon), port }),
            None => None,
        }
    }
}

/// Whether `address` is of the form host:port.
pub open spec fn is_host_port(address: Seq<char>) -> bool {
    host_port_of(address) is Some
}

/// What [`last_index_of`] finds: a position that holds `c`, with no `c` after it.
pub proof fn lemma_last_index_of(text: Seq<char>, c: char)
    ensures
        -1 <= last_index_of(text, c) < text.len(),
        last_index_of(text, c) >= 0 ==> text[last_index_of(text, c)] == c,
        forall|j: int| last_index_of(text, c) < j < text.len() ==> text[j] != c,
    decreases text.len(),
{
    if text.len() > 0 && text.last() != c {
        let shorter = text.drop_last();
        lemma_last_index_of(shorter, c);
        assert forall|j: int| last_index_of(text, c) < j < text.len() implies text[j] != c by {
            if j < shorter.len() {
                assert(text[j] == shorter[j]);
            }
        }
    }
}

/// The last colon of a host, a colon and a tail without colons is the one
/// in between.
proof fn lemma_last_colon_of_joined(host: Seq<char>, tail: Seq<char>)
    requires
        forall|i: int| 0 <= i < tail.len() ==> tail[i] != ':',
    ensures
        last_index_of(host + seq![':'] + tail, ':') == host.len(),
    decreases tail.len(),
{
    let joined = host + seq![':'] + tail;
    if tail.len() == 0 {
        assert(joined.last() == ':');
    } else {
        assert(joined.last() == tail.last());
        assert(joined.drop_last() =~= host + seq![':'] + tail.drop_last());
        lemma_last_colon_of_joined(host, tail.drop_last());
    }
}

/// A host and a port, written with a colon between them, are read back as
/// they were written, whatever the host: the grammar loses nothing.
pub proof fn lemma_host_port_of_joined(host: Seq<char>, port_text: Seq<char>)
    requires
        port_of(port_text) is Some,
    ensures
        host_port_of(host + seq![':'] + port_text) == Some(
            HostPortModel { host, port: port_of(port_text)->0 },
        ),
{
    let joined = host + seq![':'] + port_text;
    assert forall|i: int| 0 <= i < port_text.len() implies port_text[i] != ':' by {
        let digits = without_sign(port_text);
        if port_text[0] == '+' {
            if i > 0 {
                assert(is_digit(digits[i - 1]));
            }
        } else {
            assert(is_digit(digits[i]));
        }
    }
    lemma_last_colon_of_joined(host, port_text);
    assert(joined.subrange(host.len() as int + 1, joined.len() as int) =~= port_text);
    assert(joined.subrange(0, host.len() as int) =~= host);
}

/// An address of the form host:port is its host, a colon, and the text of
/// its port, and the host is all that precedes the last colon.
pub proof fn lemma_host_port_splits(address: Seq<char>)
    requires
        is_host_port(address),
    ensures
        ({
            let colon = last_index_of(address, ':');
            let port_text = address.subrange(colon + 1, address.len() as int);
            &&& 0 <= colon < address.len()
            &&& address == host_port_of(address)->0.host + seq![':'] + port_text
            &&& port_of(port_text) == Some(host_port_of(address)->0.port)
        }),
{
    lemma_last_index_of(address, ':');
    let colon = last_index_of(address, ':');
    let port_text = address.subrange(colon + 1, address.len() as int);
    assert(address =~= address.subrange(0, colon) + seq![':'] + port_text);
}

/// Writing one more digit never makes the number smaller.
proof fn lemma_decimal_value_grows(digits: Seq<char>, n: int)
    requires
        0 <= n <= digits.len(),
    ensures
        decimal_value(digits.take(n)) <= decimal_value(digits),
    decreases digits.len() - n,
{
    if n < digits.len() {
        lemma_decimal_value_grows(digits, n + 1);
        assert(digits.take(n + 1).drop_last() == digits.take(n));
    } else {
        assert(digits.take(n) == digits);
    }
}

/// The characters of `text`, one by one.
fn chars_of(text: &str) -> (chars: Vec<char>)
    ensures
        chars@ == text@,
{
    let mut chars: Vec<char> = Vec::new();
    for c in it: text.chars()
        invariant
            chars@ == it.seq().take(it.index() as int),
            it.seq() == text@,
    {
        chars.push(c);
    }
    chars
}

/// Reads the port that the characters of `text` from `start` on write.
fn parse_port(text: &Vec<char>, start: usize) -> (port: Option<u16>)
    requires
        start <= text@.len(),
    ensures
        port == port_of(text@.subrange(start as int, text@.len() as int)),
{
    let ghost written = text@.subrange(start as int, text@.len() as int);
    let mut at: usize = start;
    if at < text.len() && text[at] == '+' {
        at = at + 1;
    }
    let ghost digits = without_sign(written);
    assert(digits == text@.subrange(at as int, text@.len() as int));
    if at == text.len() {
        return None;
    }
    let first: usize = at;
    let mut value: u32 = 0;
    while at < text.len()
        invariant
            start <= first <= at <= text@.len(),
            first < text@.len(),
            digits == without_sign(text@.subrange(start as int, text@.len() as int)),
            digits == text@.subrange(first as int, text@.len() as int),
            all_digits(digits.take(at - first)),
            value == decimal_value(digits.take(at - first)),
            value <= u16::MAX,
        decreases text@.len() - at,
    {
        let c: char = text[at];
        let ghost seen = digits.take(at - first + 1);
        assert(seen.drop_last() == digits.take(at - first));
        assert(seen.last() == c);
        if !('0' <= c && c <= '9') {
            assert(!is_digit(digits[at - first]));
            return None;
        }
        let digit: u32 = c as u32 - '0' as u32;
        value = value * 10 + digit;
        if value > 65535 {
            proof {
                lemma_decimal_value_grows(digits, at - first + 1);
            }
            return None;
        }
        assert forall|i: int| 0 <= i < seen.len() implies is_digit(#[trigger] seen[i]) by {
            if i < seen.len() - 1 {
                assert(seen[i] == digits.take(at - first)[i]);
            }
        }
        at = at + 1;
    }
    assert(digits.take(at - first) == digits);
    Some(value as u16)
}

/// Takes `address` apart into its host and its port.
///
/// Returns `None` exactly when `address` is not of the form host:port.
pub fn parse_address(address: &str) -> (parsed: Option<HostPort>)
    ensures
        match parsed {
            Some(host_port) => host_port_of(address@) == Some(host_port@),
            None => host_port_of(address@) is None,
        },
{
    let chars = chars_of(address);
    let mut end: usize = chars.len();
    assert(chars@.take(end as int) == chars@);
    while end > 0 && chars[end - 1] != ':'
        invariant
            end <= chars@.len(),
            last_index_of(chars@, ':') == last_index_of(chars@.take(end as int), ':'),
        decreases end,
    {
        assert(chars@.take(end as int).drop_last() == chars@.take(end - 1));
        end = end - 1;
    }
    if end == 0 {
        return None;
    }
    let colon: usize = end - 1;
    match parse_port(&chars, end) {
        Some(port) => {
            let host = String::from_str(address.substring_char(0, colon));
            Some(HostPort { host, port })
        },
        None => None,
    }
}

/// Whether `address` is of the form host:port.
pub fn is_valid_address(address: &str) -> (valid: bool)
    ensures
        valid == is_host_port(address@),
{
    parse_address(address).is_some()
}

} // verus!
