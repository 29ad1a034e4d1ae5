//! Input checks for the connection and username pages: IP address (or a
//! local host name), port number and username.

use vstd::prelude::*;
use crate::text::{
    is_white_space, lemma_trim_idempotent, lemma_trim_ignores_padding, same_text, trim, trimmed,
    trimmed_end, trimmed_start,
};

verus! {

/// An ASCII decimal digit.
pub open spec fn is_ascii_digit(c: char) -> bool {
    '0' <= c && c <= '9'
}

/// The value of an ASCII decimal digit.
pub open spec fn digit_value(c: char) -> int {
    c as int - '0' as int
}

/// Every character of `s` is an ASCII decimal digit.
pub open spec fn all_ascii_digits(s: Seq<char>) -> bool {
    forall|i: int| 0 <= i < s.len() ==> is_ascii_digit(#[trigger] s[i])
}

/// The number that the digits of `s` denote in base ten.
pub open spec fn decimal_value(s: Seq<char>) -> int
    decreases s.len(),
{
    if s.len() == 0 {
        0
    } else {
        decimal_value(s.drop_last()) * 10 + digit_value(s.last())
    }
}

/// The digits of an unsigned number: the text without one leading `+`.
pub open spec fn unsigned_digits(s: Seq<char>) -> Seq<char> {
    if s.len() > 0 && s[0] == '+' {
        s.drop_first()
    } else {
        s
    }
}

/// What `str::parse::<u16>` gives: an optional `+` followed by at least one
/// ASCII digit, and a value that fits in 16 bits.
pub open spec fn parsed_u16(s: Seq<char>) -> Option<u16> {
    let d = unsigned_digits(s);
    if d.len() > 0 && all_ascii_digits(d) && decimal_value(d) <= u16::MAX {
        Some(decimal_value(d) as u16)
    } else {
        None
    }
}

/// Digits only ever make a number grow: the value of a prefix is at most
/// the value of the whole.
pub proof fn lemma_decimal_prefix_le(d: Seq<char>, k: int)
    requires
        all_ascii_digits(d),
        0 <= k <= d.len(),
    ensures
        0 <= decimal_value(d.subrange(0, k)) <= decimal_value(d),
    decreases d.len() - k,
{
    if k == d.len() {
        assert(d.subrange(0, k) =~= d);
        lemma_decimal_nonneg(d);
    } else {
        lemma_decimal_prefix_le(d, k + 1);
        let p = d.subrange(0, k + 1);
        assert(p.drop_last() =~= d.subrange(0, k));
        assert(is_ascii_digit(p.last()));
        lemma_decimal_nonneg(d.subrange(0, k));
    }
}

/// The value of a digit string is never negative.
pub proof fn lemma_decimal_nonneg(d: Seq<char>)
    requires
        all_ascii_digits(d),
    ensures
        decimal_value(d) >= 0,
    decreases d.len(),
{
    if d.len() > 0 {
        lemma_decimal_nonneg(d.drop_last());
        assert(is_ascii_digit(d[d.len() - 1]));
    }
}

/// Parses `s` as `str::parse::<u16>` does.
pub fn parse_u16(s: &str) -> (r: Option<u16>)
    ensures
        r == parsed_u16(s@),
{
    let n: usize = s.unicode_len();
    let mut start: usize = 0;
    if n > 0 && s.get_char(0) == '+' {
        start = 1;
    }
    let ghost d = s@.subrange(start as int, n as int);
    assert(d =~= unsigned_digits(s@));
    if start == n {
        return None;
    }
    let mut value: u32 = 0;
    let mut k: usize = start;
    assert(d.subrange(0, 0) =~= Seq::<char>::empty());
    while k < n
        invariant
            n == s@.len(),
            start <= k <= n,
            start < n,
            d == s@.subrange(start as int, n as int),
            d == unsigned_digits(s@),
            all_ascii_digits(d.subrange(0, k - start)),
            value == decimal_value(d.subrange(0, k - start)),
            value <= u16::MAX,
        decreases n - k,
    {
        let c = s.get_char(k);
        let ghost pre = d.subrange(0, k - start);
        let ghost next = d.subrange(0, k + 1 - start);
        assert(next.drop_last() =~= pre);
        assert(next.last() == c);
        if !('0' <= c && c <= '9') {
            assert(!is_ascii_digit(d[k - start]));
            return None;
        }
        let digit: u32 = (c as u32) - ('0' as u32);
        value = value * 10 + digit;
        assert(all_ascii_digits(next)) by {
            assert forall|i: int| 0 <= i < next.len() implies is_ascii_digit(#[trigger] next[i]) by {
                if i < pre.len() {
                    assert(next[i] == pre[i]);
                }
            }
        }
        if value > 65535 {
            proof {
                if all_ascii_digits(d) {
                    lemma_decimal_prefix_le(d, k + 1 - start);
                }
            }
            return None;
        }
        k = k + 1;
    }
    assert(d.subrange(0, n - start) =~= d);
    Some(value as u16)
}

/// The port field holds a number from 1 to 65535, surrounding whitespace
/// aside.
pub open spec fn port_accepted(text: Seq<char>) -> bool {
    match parsed_u16(trimmed(text)) {
        Some(port) => port > 0,
        None => false,
    }
}

/// Port check: the trimmed text must parse as a `u16` greater than zero.
pub fn validate_port(text: &str) -> (r: bool)
    ensures
        r == port_accepted(text@),
{
    let t = trim(text);
    match parse_u16(t) {
        Some(port) => port > 0,
        None => false,
    }
}

/// What `char::is_alphanumeric` gives for `c` (Unicode `Alphabetic` or
/// `Numeric`).
pub uninterp spec fn alphanumeric(c: char) -> bool;

/// Calls `char::is_alphanumeric`. Claimed: the result is `alphanumeric(c)`;
/// which characters that covers is left to the Unicode tables it reads.
#[verifier::external_body]
fn char_is_alphanumeric(c: char) -> (r: bool)
    ensures
        r == alphanumeric(c),
{
    c.is_alphanumeric()
}

/// The shortest username, in characters.
pub const USERNAME_MIN: usize = 3;

/// The longest username, in characters.
pub const USERNAME_MAX: usize = 20;

/// The username field holds 3 to 20 alphanumeric characters, surrounding
/// whitespace aside.
pub open spec fn username_accepted(text: Seq<char>) -> bool {
    let t = trimmed(text);
    &&& USERNAME_MIN <= t.len() <= USERNAME_MAX
    &&& forall|i: int| 0 <= i < t.len() ==> alphanumeric(#[trigger] t[i])
}

/// Username check: 3 to 20 symbols, each of them alphanumeric.
pub fn validate_username(text: &str) -> (r: bool)
    ensures
        r == username_accepted(text@),
{
    let t = trim(text);
    let n: usize = t.unicode_len();
    if n < USERNAME_MIN || n > USERNAME_MAX {
        return false;
    }
    let mut i: usize = 0;
    while i < n
        invariant
            n == t@.len(),
            t@ == trimmed(text@),
            USERNAME_MIN <= n <= USERNAME_MAX,
            i <= n,
            forall|k: int| 0 <= k < i ==> alphanumeric(#[trigger] t@[k]),
        decreases n - i,
    {
        if !char_is_alphanumeric(t.get_char(i)) {
            return false;
        }
        i = i + 1;
    }
    true
}

/// The host name that stands for this machine.
pub open spec fn is_local_host_name(t: Seq<char>) -> bool {
    t == "localhost"@ || t == "ip6-localhost"@
}

/// What `text.parse::<core::net::IpAddr>().is_ok()` gives: whether the text
/// is an IPv4 dotted-quad or an IPv6 literal as the standard library reads
/// them.
pub uninterp spec fn ip_address_literal(text: Seq<char>) -> bool;

/// Calls `str::parse::<core::net::IpAddr>`. Claimed: it succeeds exactly
/// when `ip_address_literal` holds of the text; the address grammar it
/// accepts is left to the standard library.
#[verifier::external_body]
fn parses_as_ip_address(text: &str) -> (r: bool)
    ensures
        r == ip_address_literal(text@),
{
    text.parse::<core::net::IpAddr>().is_ok()
}

/// The IP field holds, surrounding whitespace aside, one of the host names
/// `localhost` and `ip6-localhost`, or an IPv4 or IPv6 address.
pub open spec fn ip_accepted(text: Seq<char>) -> bool {
    is_local_host_name(trimmed(text)) || ip_address_literal(trimmed(text))
}

/// Checks IP: supports IPv4, IPv6 and the two local host names.
pub fn validate_ip(text: &str) -> (r: bool)
    ensures
        r == ip_accepted(text@),
{
    let t = trim(text);
    if same_text(t, "localhost") || same_text(t, "ip6-localhost") {
        return true;
    }
    parses_as_ip_address(t)
}

/// Each check looks at the trimmed text only: checking the trimmed text
/// gives the same answer, and so does adding whitespace around the text.
pub proof fn lemma_checks_ignore_surrounding_whitespace(
    text: Seq<char>,
    before: Seq<char>,
    after: Seq<char>,
)
    requires
        forall|i: int| 0 <= i < before.len() ==> is_white_space(#[trigger] before[i]),
        forall|i: int| 0 <= i < after.len() ==> is_white_space(#[trigger] after[i]),
    ensures
        port_accepted(trimmed(text)) == port_accepted(text),
        username_accepted(trimmed(text)) == username_accepted(text),
        ip_accepted(trimmed(text)) == ip_accepted(text),
        port_accepted(before + text + after) == port_accepted(text),
        username_accepted(before + text + after) == username_accepted(text),
        ip_accepted(before + text + after) == ip_accepted(text),
{
    lemma_trim_idempotent(text);
    lemma_trim_ignores_padding(before, text, after);
}

/// The decimal digit character for `d` (below ten).
pub open spec fn digit_char(d: nat) -> char {
    ('0' as int + d) as char
}

/// `n` written in decimal, without sign or leading zeros.
pub open spec fn decimal_text(n: nat) -> Seq<char>
    decreases n,
{
    if n < 10 {
        seq![digit_char(n)]
    } else {
        decimal_text(n / 10).push(digit_char(n % 10))
    }
}

/// Decimal text is digits only, and denotes its number.
pub proof fn lemma_decimal_text(n: nat)
    ensures
        decimal_text(n).len() > 0,
        all_ascii_digits(decimal_text(n)),
        decimal_value(decimal_text(n)) == n,
    decreases n,
{
    if n < 10 {
        assert(digit_value(digit_char(n)) == n);
        let t = decimal_text(n);
        assert(t.drop_last() =~= Seq::<char>::empty());
        assert(decimal_value(t.drop_last()) == 0);
        assert(t.last() == digit_char(n));
        assert(decimal_value(t) == decimal_value(t.drop_last()) * 10 + digit_value(t.last()));
    }
    if n >= 10 {
        lemma_decimal_text(n / 10);
        let t = decimal_text(n);
        assert(t.drop_last() =~= decimal_text(n / 10));
        assert(t.last() == digit_char(n % 10));
        assert(digit_value(digit_char(n % 10)) == n % 10);
        assert(n == (n / 10) * 10 + n % 10);
        assert(decimal_value(t) == decimal_value(t.drop_last()) * 10 + digit_value(t.last()));
        assert forall|i: int| 0 <= i < t.len() implies is_ascii_digit(#[trigger] t[i]) by {
            if i < t.len() - 1 {
                assert(t[i] == decimal_text(n / 10)[i]);
            }
        }
    }
}

/// Every port from 1 to 65535 written in decimal is accepted, and zero is
/// not: the port check accepts exactly the range 1-65535.
pub proof fn lemma_port_range(n: u16)
    ensures
        port_accepted(decimal_text(n as nat)) <==> n > 0,
{
    let t = decimal_text(n as nat);
    lemma_decimal_text(n as nat);
    assert(is_ascii_digit(t[0]));
    assert(is_ascii_digit(t.last()));
    assert(!is_white_space(t[0]));
    assert(!is_white_space(t.last()));
    assert(trimmed(t) == t) by {
        assert(trimmed_start(t) == t);
        assert(trimmed_end(t) == t);
    }
    assert(unsigned_digits(t) == t);
}

/// A username with a character that `char::is_alphanumeric` rejects is
/// rejected, wherever in the trimmed text that character stands.
pub proof fn lemma_username_rejects_non_alphanumeric(text: Seq<char>, i: int)
    requires
        0 <= i < trimmed(text).len(),
        !alphanumeric(trimmed(text)[i]),
    ensures
        !username_accepted(text),
{
}

/// A username shorter than 3 or longer than 20 characters (after trimming)
/// is rejected.
pub proof fn lemma_username_length_bounds(text: Seq<char>)
    requires
        trimmed(text).len() < 3 || trimmed(text).len() > 20,
    ensures
        !username_accepted(text),
{
}

/// A trimmed text of 3 to 20 characters, each of them alphanumeric, is an
/// accepted username.
pub proof fn lemma_username_accepts_alphanumeric(text: Seq<char>)
    requires
        3 <= trimmed(text).len() <= 20,
        forall|i: int| 0 <= i < trimmed(text).len() ==> alphanumeric(#[trigger] trimmed(text)[i]),
    ensures
        username_accepted(text),
{
}

/// The only host names are exactly `localhost` and `ip6-localhost`.
pub proof fn lemma_local_host_names_are_exact(t: Seq<char>)
    ensures
        is_local_host_name(t) <==> (t =~= seq!['l', 'o', 'c', 'a', 'l', 'h', 'o', 's', 't'] || t
            =~= seq!['i', 'p', '6', '-', 'l', 'o', 'c', 'a', 'l', 'h', 'o', 's', 't']),
{
    reveal_strlit("localhost");
    reveal_strlit("ip6-localhost");
    assert("localhost"@ =~= seq!['l', 'o', 'c', 'a', 'l', 'h', 'o', 's', 't']);
    assert("ip6-localhost"@ =~= seq!['i', 'p', '6', '-', 'l', 'o', 'c', 'a', 'l', 'h', 'o', 's', 't']);
}

/// An IP field is accepted exactly when its trimmed text is `localhost`,
/// `ip6-localhost` or an address that the standard library's `IpAddr`
/// parser accepts; any other host name is rejected.
pub proof fn lemma_ip_accepted_exactly(text: Seq<char>)
    ensures
        ip_address_literal(trimmed(text)) ==> ip_accepted(text),
        trimmed(text) =~= seq!['l', 'o', 'c', 'a', 'l', 'h', 'o', 's', 't'] ==> ip_accepted(text),
        trimmed(text) =~= seq!['i', 'p', '6', '-', 'l', 'o', 'c', 'a', 'l', 'h', 'o', 's', 't']
            ==> ip_accepted(text),
        !ip_address_literal(trimmed(text)) ==> (ip_accepted(text) <==> (trimmed(text) =~= seq![
            'l',
            'o',
            'c',
            'a',
            'l',
            'h',
            'o',
            's',
            't',
        ] || trimmed(text) =~= seq![
            'i',
            'p',
            '6',
            '-',
            'l',
            'o',
            'c',
            'a',
            'l',
            'h',
            'o',
            's',
            't',
        ])),
{
    lemma_local_host_names_are_exact(trimmed(text));
}

/// An accepted port is an optional `+` and ASCII digits whose value lies
/// between 1 and 65535.
pub proof fn lemma_port_accepted_is_in_range(text: Seq<char>)
    requires
        port_accepted(text),
    ensures
        ({
            let t = trimmed(text);
            let d = if t.len() > 0 && t[0] == '+' {
                t.drop_first()
            } else {
                t
            };
            &&& d.len() > 0
            &&& forall|i: int| 0 <= i < d.len() ==> '0' <= #[trigger] d[i] <= '9'
            &&& 1 <= decimal_value(d) <= 65535
        }),
{
    let d = unsigned_digits(trimmed(text));
    assert(all_ascii_digits(d));
    assert forall|i: int| 0 <= i < d.len() implies '0' <= #[trigger] d[i] <= '9' by {
        assert(is_ascii_digit(d[i]));
    }
    lemma_decimal_nonneg(d);
    assert(decimal_value(d) <= u16::MAX);
    assert((decimal_value(d) as u16) as int == decimal_value(d));
}

} // verus!
