//! Endpoint addresses: splitting `host:port` and `[ipv6]:port` strings and
//! reading the port number.
//!
//! All positions are counted in characters, and every contract is stated over
//! the character sequence of the input (`text@`).
//!
//! A server string without any colon carries no port. [`split_host_port`]
//! reports that as [`AddressError::MissingPort`]; [`parse_address`] accepts it
//! and substitutes [`DEFAULT_PORT`], so that a bare host name is enough to
//! name an endpoint.

use vstd::prelude::*;
use vstd::std_specs::iter::IteratorSpec;

verus! {

/// The port used for a server string that carries no port at all.
pub const DEFAULT_PORT: u16 = 993;

/// Why a server string is not an address.
#[derive(Clone, Copy, Debug, PartialEq, Eq, Structural)]
pub enum AddressError {
    /// There is no port: no colon at all, nothing behind the closing bracket,
    /// or something other than a colon right behind it.
    MissingPort,
    /// The string opens a bracket and never closes it.
    UnterminatedBracket,
    /// More colons than the one that separates host and port. An IPv6
    /// literal has to be written in brackets.
    TooManyColons,
    /// The port is not a decimal number between 0 and 65535.
    InvalidPort,
}

/// What is reported of an address error.
pub open spec fn message_spec(error: AddressError) -> Seq<char> {
    match error {
        AddressError::MissingPort => "missing port in address"@,
        AddressError::UnterminatedBracket => "missing ']' in address"@,
        AddressError::TooManyColons => "too many colons in address"@,
        AddressError::InvalidPort => "invalid port in address"@,
    }
}

impl AddressError {
    /// A short description of the error, for diagnostics.
    pub fn message(self) -> (text: &'static str)
        ensures
            text@ == message_spec(self),
    {
        match self {
            AddressError::MissingPort => "missing port in address",
            AddressError::UnterminatedBracket => "missing ']' in address",
            AddressError::TooManyColons => "too many colons in address",
            AddressError::InvalidPort => "invalid port in address",
        }
    }
}

/// A host and a port, as a probe connects to them.
#[derive(Clone, Debug, PartialEq, Eq)]
pub struct Address {
    pub host: String,
    pub port: u16,
}

/// What an [`Address`] stands for in contracts.
pub struct AddressView {
    pub host: Seq<char>,
    pub port: u16,
}

impl View for Address {
    type V = AddressView;

    open spec fn view(&self) -> AddressView {
        AddressView { host: self.host@, port: self.port }
    }
}

/// The host and port parts of a server string, or the reason why it has none.
///
/// With `colon` the position of the last colon and `close` that of the last
/// closing bracket:
/// - no colon: `MissingPort`;
/// - a string that starts with `[`: no closing bracket is
///   `UnterminatedBracket`; a closing bracket at the very end is
///   `MissingPort`; where the last colon stands right behind the bracket, the
///   host is what the brackets enclose and the port is what follows the colon;
///   a colon right behind the bracket with further colons later is
///   `TooManyColons`; anything else behind the bracket is `MissingPort`;
/// - any other string is split at its last colon, and a second colon in the
///   host part is `TooManyColons`.
pub open spec fn split_spec(s: Seq<char>) -> Result<(Seq<char>, Seq<char>), AddressError> {
    match s.index_of_last(':') {
        None => Err(AddressError::MissingPort),
        Some(colon) => {
            if s[0] == '[' {
                match s.index_of_last(']') {
                    None => Err(AddressError::UnterminatedBracket),
                    Some(close) => {
                        if close + 1 == s.len() {
                            Err(AddressError::MissingPort)
                        } else if close + 1 == colon {
                            Ok((s.subrange(1, close), s.subrange(close + 2, s.len() as int)))
                        } else if s[close + 1] == ':' {
                            Err(AddressError::TooManyColons)
                        } else {
                            Err(AddressError::MissingPort)
                        }
                    },
                }
            } else {
                let host = s.subrange(0, colon);
                if host.contains(':') {
                    Err(AddressError::TooManyColons)
                } else {
                    Ok((host, s.subrange(colon + 1, s.len() as int)))
                }
            }
        },
    }
}

/// One of the ten decimal digits.
pub open spec fn is_digit(c: char) -> bool {
    '0' <= c <= '9'
}

/// The number that a decimal digit stands for.
pub open spec fn digit_value(c: char) -> nat {
    (c as int - '0' as int) as nat
}

/// The number that a string of decimal digits stands for; 0 for the empty
/// string.
pub open spec fn decimal_value(digits: Seq<char>) -> nat
    decreases digits.len(),
{
    if digits.len() == 0 {
        0
    } else {
        decimal_value(digits.drop_last()) * 10 + digit_value(digits.last())
    }
}

/// The digits of a number text: the text without its leading `+`, if it has
/// one.
pub open spec fn digits_of(text: Seq<char>) -> Seq<char> {
    if text.len() > 0 && text[0] == '+' {
        text.drop_first()
    } else {
        text
    }
}

/// A number text is an optional `+` followed by at least one decimal digit
/// and nothing else.
pub open spec fn is_number_text(text: Seq<char>) -> bool {
    let digits = digits_of(text);
    digits.len() > 0 && forall|i: int| 0 <= i < digits.len() ==> is_digit(#[trigger] digits[i])
}

/// The value of a number text, if it is one and its value is at most `limit`.
pub open spec fn number_spec(text: Seq<char>, limit: nat) -> Option<nat> {
    if is_number_text(text) && decimal_value(digits_of(text)) <= limit {
        Some(decimal_value(digits_of(text)))
    } else {
        None
    }
}

/// The port that a port text names, or `InvalidPort`.
pub open spec fn port_spec(text: Seq<char>) -> Result<u16, AddressError> {
    match number_spec(text, 65535) {
        Some(value) => Ok(value as u16),
        None => Err(AddressError::InvalidPort),
    }
}

/// The address that a server string names, or the reason why it names none.
/// A string without a colon is a host on [`DEFAULT_PORT`].
pub open spec fn address_spec(s: Seq<char>) -> Result<AddressView, AddressError> {
    if !s.contains(':') {
        Ok(AddressView { host: s, port: DEFAULT_PORT })
    } else {
        match split_spec(s) {
            Err(e) => Err(e),
            Ok((host, port_text)) => match port_spec(port_text) {
                Err(e) => Err(e),
                Ok(port) => Ok(AddressView { host, port }),
            },
        }
    }
}

/// Position, counted in characters, of the last `needle` in `s`.
fn rfind_char(s: &str, needle: char) -> (pos: Option<usize>)
    ensures
        match pos {
            Some(i) => s@.index_of_last(needle) == Some(i as int),
            None => s@.index_of_last(needle) is None,
        },
{
    let total: usize = s.unicode_len();
    let mut it = s.chars();
    let mut i: usize = 0;
    let mut found: Option<usize> = None;
    loop
        invariant
            total == s@.len(),
            i <= total,
            it.remaining() == s@.subrange(i as int, total as int),
            match found {
                Some(k) => k < i && s@[k as int] == needle && forall|j: int|
                    k < j < i ==> s@[j] != needle,
                None => forall|j: int| 0 <= j < i ==> s@[j] != needle,
            },
        decreases total - i,
    {
        broadcast use vstd::string::group_string_axioms;

        match it.next() {
            None => {
                proof {
                    s@.index_of_last_ensures(needle);
                }
                return found;
            },
            Some(c) => {
                assert(c == s@[i as int]);
                assert(it.remaining() == s@.subrange(i + 1, total as int));
                if c == needle {
                    found = Some(i);
                }
                i = i + 1;
            },
        }
    }
}

/// Splits a server string into its host and its port text.
///
/// `"mail.example.com:993"` gives `("mail.example.com", "993")`, and
/// `"[::1]:143"` gives `("::1", "143")`. The port text is not examined here.
pub fn split_host_port<'a>(hostport: &'a str) -> (res: Result<(&'a str, &'a str), AddressError>)
    ensures
        match res {
            Ok((host, port)) => split_spec(hostport@) == Ok::<_, AddressError>((host@, port@)),
            Err(e) => split_spec(hostport@) == Err::<(Seq<char>, Seq<char>), _>(e),
        },
{
    let total: usize = hostport.unicode_len();
    proof {
        hostport@.index_of_last_ensures(':');
        hostport@.index_of_last_ensures(']');
    }
    match rfind_char(hostport, ':') {
        None => Err(AddressError::MissingPort),
        Some(colon) => {
            if hostport.get_char(0) == '[' {
                match rfind_char(hostport, ']') {
                    None => Err(AddressError::UnterminatedBracket),
                    Some(close) => {
                        if close + 1 == total {
                            Err(AddressError::MissingPort)
                        } else if close + 1 == colon {
                            let host = hostport.substring_char(1, close);
                            let port = hostport.substring_char(close + 2, total);
                            Ok((host, port))
                        } else if hostport.get_char(close + 1) == ':' {
                            Err(AddressError::TooManyColons)
                        } else {
                            Err(AddressError::MissingPort)
                        }
                    },
                }
            } else {
                let host = hostport.substring_char(0, colon);
                proof {
                    host@.index_of_last_ensures(':');
                }
                match rfind_char(host, ':') {
                    Some(_) => Err(AddressError::TooManyColons),
                    None => {
                        let port = hostport.substring_char(colon + 1, total);
                        Ok((host, port))
                    },
                }
            }
        },
    }
}

/// Reads a number text (see [`is_number_text`]) whose value is at most
/// `limit`. Leading zeros do not count against the limit.
pub fn parse_number(text: &str, limit: u64) -> (value: Option<u64>)
    ensures
        match value {
            Some(v) => number_spec(text@, limit as nat) == Some(v as nat),
            None => number_spec(text@, limit as nat) is None,
        },
{
    let total: usize = text.unicode_len();
    let digits: &str = if total > 0 && text.get_char(0) == '+' {
        text.substring_char(1, total)
    } else {
        text
    };
    assert(digits@ == digits_of(text@));
    let count: usize = digits.unicode_len();
    if count == 0 {
        return None;
    }
    let mut it = digits.chars();
    let mut i: usize = 0;
    let mut acc: u64 = 0;
    let mut over: bool = false;
    loop
        invariant
            digits@ == digits_of(text@),
            count == digits@.len(),
            0 < count,
            i <= count,
            it.remaining() == digits@.subrange(i as int, count as int),
            forall|j: int| 0 <= j < i ==> is_digit(#[trigger] digits@[j]),
            over ==> decimal_value(digits@.subrange(0, i as int)) > limit,
            !over ==> acc == decimal_value(digits@.subrange(0, i as int)) && acc <= limit,
        decreases count - i,
    {
        broadcast use vstd::string::group_string_axioms;

        match it.next() {
            None => {
                assert(digits@.subrange(0, i as int) == digits@);
                return if over {
                    None
                } else {
                    Some(acc)
                };
            },
            Some(c) => {
                assert(c == digits@[i as int]);
                assert(it.remaining() == digits@.subrange(i + 1, count as int));
                if !('0' <= c && c <= '9') {
                    return None;
                }
                let d: u64 = (c as u32 - '0' as u32) as u64;
                proof {
                    let longer = digits@.subrange(0, i + 1);
                    assert(longer.drop_last() == digits@.subrange(0, i as int));
                    assert(longer.last() == c);
                    assert(d == digit_value(c));
                }
                if !over {
                    let next: u128 = acc as u128 * 10 + d as u128;
                    if next > limit as u128 {
                        over = true;
                    } else {
                        acc = next as u64;
                    }
                }
                i = i + 1;
            },
        }
    }
}

/// Reads a port: a number text between 0 and 65535.
pub fn parse_port(text: &str) -> (res: Result<u16, AddressError>)
    ensures
        res == port_spec(text@),
{
    match parse_number(text, 65535) {
        Some(value) => Ok(value as u16),
        None => Err(AddressError::InvalidPort),
    }
}

/// Reads a server string as an address.
///
/// `"host:port"` and `"[ipv6]:port"` name host and port; a string without
/// any colon names a host on [`DEFAULT_PORT`].
pub fn parse_address(server: &str) -> (res: Result<Address, AddressError>)
    ensures
        match res {
            Ok(address) => address_spec(server@) == Ok::<_, AddressError>(address@),
            Err(e) => address_spec(server@) == Err::<AddressView, _>(e),
        },
{
    proof {
        server@.index_of_last_ensures(':');
    }
    if rfind_char(server, ':').is_none() {
        return Ok(Address { host: server.to_owned(), port: DEFAULT_PORT });
    }
    match split_host_port(server) {
        Err(e) => Err(e),
        Ok((host, port_text)) => match parse_port(port_text) {
            Err(e) => Err(e),
            Ok(port) => Ok(Address { host: host.to_owned(), port }),
        },
    }
}

/// The last `c` of `s` stands at `k` if `s` has a `c` there and none behind it.
proof fn lemma_last_index(s: Seq<char>, c: char, k: int)
    requires
        0 <= k < s.len(),
        s[k] == c,
        forall|j: int| k < j < s.len() ==> s[j] != c,
    ensures
        s.index_of_last(c) == Some(k),
{
    s.index_of_last_ensures(c);
    assert(s.contains(c));
}

/// A string of digits is a number text, and its own digits.
proof fn lemma_digits_are_number_text(digits: Seq<char>)
    requires
        digits.len() > 0,
        forall|i: int| 0 <= i < digits.len() ==> is_digit(#[trigger] digits[i]),
    ensures
        digits_of(digits) == digits,
        is_number_text(digits),
{
    assert(is_digit(digits[0]));
}

/// Every `host:port` with a host free of colons that does not open a
/// bracket, and a port of decimal digits worth at most 65535, is read as
/// exactly that host and that port.
pub proof fn lemma_plain_address_is_read_exactly(host: Seq<char>, digits: Seq<char>)
    requires
        !host.contains(':'),
        host.len() == 0 || host[0] != '[',
        digits.len() > 0,
        forall|i: int| 0 <= i < digits.len() ==> is_digit(#[trigger] digits[i]),
        decimal_value(digits) <= 65535,
    ensures
        split_spec(host + seq![':'] + digits) == Ok::<_, AddressError>((host, digits)),
        address_spec(host + seq![':'] + digits) == Ok::<_, AddressError>(
            AddressView { host, port: decimal_value(digits) as u16 },
        ),
{
    let s = host + seq![':'] + digits;
    let colon = host.len() as int;
    assert(s[colon] == ':');
    assert forall|j: int| colon < j < s.len() implies s[j] != ':' by {
        assert(s[j] == digits[j - colon - 1]);
        assert(is_digit(digits[j - colon - 1]));
    }
    lemma_last_index(s, ':', colon);
    assert(s.subrange(0, colon) == host);
    assert(s.subrange(colon + 1, s.len() as int) == digits);
    if host.len() > 0 {
        assert(s[0] == host[0]);
    }
    lemma_digits_are_number_text(digits);
}

/// Every `[host]:port` with a port of decimal digits worth at most 65535 is
/// read as exactly that host and that port, whatever the brackets enclose.
pub proof fn lemma_bracketed_address_is_read_exactly(host: Seq<char>, digits: Seq<char>)
    requires
        digits.len() > 0,
        forall|i: int| 0 <= i < digits.len() ==> is_digit(#[trigger] digits[i]),
        decimal_value(digits) <= 65535,
    ensures
        split_spec(seq!['['] + host + seq![']', ':'] + digits) == Ok::<_, AddressError>(
            (host, digits),
        ),
        address_spec(seq!['['] + host + seq![']', ':'] + digits) == Ok::<_, AddressError>(
            AddressView { host, port: decimal_value(digits) as u16 },
        ),
{
    let s = seq!['['] + host + seq![']', ':'] + digits;
    let close = host.len() as int + 1;
    let colon = close + 1;
    assert(s[0] == '[');
    assert(s[close] == ']');
    assert(s[colon] == ':');
    assert forall|j: int| colon < j < s.len() implies s[j] != ':' && s[j] != ']' by {
        assert(s[j] == digits[j - colon - 1]);
        assert(is_digit(digits[j - colon - 1]));
    }
    lemma_last_index(s, ':', colon);
    lemma_last_index(s, ']', close);
    assert(s.subrange(1, close) == host);
    assert(s.subrange(close + 2, s.len() as int) == digits);
    assert(s.contains(':'));
    lemma_digits_are_number_text(digits);
}

/// A string that splits is its two parts around one colon, the host in
/// brackets if the string opens one; and the port part holds no colon.
pub proof fn lemma_split_parts_make_the_whole(s: Seq<char>)
    requires
        split_spec(s) is Ok,
    ensures
        ({
            let (host, port) = split_spec(s)->Ok_0;
            &&& !port.contains(':')
            &&& s[0] == '[' ==> s == seq!['['] + host + seq![']', ':'] + port
            &&& s[0] != '[' ==> s == host + seq![':'] + port && !host.contains(':')
        }),
{
    s.index_of_last_ensures(':');
    s.index_of_last_ensures(']');
    let (host, port) = split_spec(s)->Ok_0;
    let colon = s.index_of_last(':')->0;
    assert(port == s.subrange(colon + 1, s.len() as int));
    if port.contains(':') {
        let k = choose|k: int| 0 <= k < port.len() && port[k] == ':';
        assert(s[colon + 1 + k] == ':');
    }
    if s[0] == '[' {
        assert(s =~= seq!['['] + host + seq![']', ':'] + port);
    } else {
        assert(s =~= host + seq![':'] + port);
    }
}

} // verus!
