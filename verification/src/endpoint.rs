//! Network endpoints as text: a host, and a port behind a colon.

use crate::text;
use vstd::prelude::*;

verus! {

/// The port that the Apple Remote Desktop service listens on, as text.
pub const DEFAULT_PORT: &'static str = "5900";

/// Whether `s` writes a 16-bit port number.
pub open spec fn is_port(s: Seq<char>) -> bool {
    text::parsed_unsigned(s, 65535) is Some
}

/// The host and the port that `value` names. A host in square brackets may hold
/// colons; without brackets a port is only recognised behind a single colon. A
/// value without a valid port is a host on the default port.
pub open spec fn endpoint_parts(value: Seq<char>) -> (Seq<char>, Seq<char>) {
    let v = text::trimmed(value);
    let rest = v.skip(1);
    let bracket = text::last_pair(rest, ']', ':');
    let colon = text::last_index(v, ':');
    if v.len() > 0 && v[0] == '[' && bracket >= 0 && is_port(rest.skip(bracket + 2)) {
        (rest.take(bracket), rest.skip(bracket + 2))
    } else if colon >= 0 && !v.take(colon).contains(':') && is_port(v.skip(colon + 1)) {
        (v.take(colon), v.skip(colon + 1))
    } else {
        (v, DEFAULT_PORT@)
    }
}

/// Splits `value` into a host and a port.
pub fn split_endpoint(value: &str) -> (parts: (String, String))
    ensures
        (parts.0@, parts.1@) == endpoint_parts(value@),
{
    let value = text::trim(value);
    let chars = text::chars_of(value.as_str());
    let len: usize = chars.len();
    if len > 0 && chars[0] == '[' {
        let rest = text::slice_of(&chars, 1, len);
        assert(rest@ =~= chars@.skip(1));
        if let Some(index) = text::find_last_pair(rest, ']', ':') {
            let host = text::string_from(text::slice_of(&chars, 1, index + 1));
            let port = text::string_from(text::slice_of(&chars, index + 3, len));
            assert(host@ =~= chars@.skip(1).take(index as int));
            assert(port@ =~= chars@.skip(1).skip(index as int + 2));
            if text::parse_unsigned(port.as_str(), 65535).is_some() {
                return (host, port);
            }
        }
    }
    if let Some(index) = text::find_last(chars.as_slice(), ':') {
        let front = text::slice_of(&chars, 0, index);
        assert(front@ =~= chars@.take(index as int));
        let host = text::string_from(front);
        let port = text::string_from(text::slice_of(&chars, index + 1, len));
        assert(port@ =~= chars@.skip(index as int + 1));
        if text::count_char(front, ':') == 0 && text::parse_unsigned(port.as_str(), 65535).is_some() {
            return (host, port);
        }
    }
    (value, DEFAULT_PORT.to_owned())
}

/// Whether `s` stands in square brackets.
pub open spec fn is_bracketed(s: Seq<char>) -> bool {
    s.len() > 0 && s[0] == '[' && s.last() == ']'
}

/// The text for a host and a port. A host with colons is put in square brackets,
/// unless it already is.
pub open spec fn endpoint_text(host: Seq<char>, port: Seq<char>) -> Seq<char> {
    let h = text::trimmed(host);
    if h.contains(':') && !is_bracketed(h) {
        "["@ + h + "]:"@ + port
    } else {
        h + ":"@ + port
    }
}

/// Joins a host and a port.
pub fn format_endpoint(host: &str, port: &str) -> (endpoint: String)
    ensures
        endpoint@ == endpoint_text(host@, port@),
{
    let host = text::trim(host);
    let chars = text::chars_of(host.as_str());
    let bracketed = chars.len() > 0 && chars[0] == '[' && chars[chars.len() - 1] == ']';
    let mut endpoint = String::new();
    if text::count_char(chars.as_slice(), ':') > 0 && !bracketed {
        endpoint.append("[");
        endpoint.append(host.as_str());
        endpoint.append("]:");
        endpoint.append(port);
        assert(endpoint@ =~= "["@ + host@ + "]:"@ + port@);
    } else {
        endpoint.append(host.as_str());
        endpoint.append(":");
        endpoint.append(port);
        assert(endpoint@ =~= host@ + ":"@ + port@);
    }
    endpoint
}

/// The endpoint that an address field and a port field name together: the
/// address may carry its own port, an empty port field stands for the default,
/// and the port must be between 1 and 65535. `None` if they name no endpoint.
pub open spec fn field_endpoint(address: Seq<char>, port: Seq<char>) -> Option<Seq<char>> {
    let a = text::trimmed(address);
    let (parsed_host, parsed_port) = endpoint_parts(a);
    let embedded = parsed_host != a;
    let host = if embedded { parsed_host } else { a };
    let port_text = if embedded {
        parsed_port
    } else if text::trimmed(port).len() == 0 {
        DEFAULT_PORT@
    } else {
        text::trimmed(port)
    };
    if !embedded && text::occurrences(a, ':') == 1 {
        None
    } else {
        match text::parsed_unsigned(port_text, 65535) {
            Some(number) => if host.len() == 0 || number == 0 {
                None
            } else {
                Some(endpoint_text(host, text::decimal(number)))
            },
            None => None,
        }
    }
}

/// The endpoint that an address field and a port field name together.
pub fn endpoint_from_fields(address: &str, port: &str) -> (endpoint: Option<String>)
    ensures
        endpoint is Some <==> field_endpoint(address@, port@) is Some,
        endpoint matches Some(e) ==> field_endpoint(address@, port@) == Some(e@),
{
    let address = text::trim(address);
    let (parsed_host, parsed_port) = split_endpoint(address.as_str());
    let embedded = !text::same_text(parsed_host.as_str(), address.as_str());
    let chars = text::chars_of(address.as_str());
    if !embedded && text::count_char(chars.as_slice(), ':') == 1 {
        return None;
    }
    let port = text::trim(port);
    let port_text = if embedded {
        parsed_port
    } else if port.as_str().is_empty() {
        DEFAULT_PORT.to_owned()
    } else {
        port
    };
    let host = if embedded { parsed_host } else { address };
    match text::parse_unsigned(port_text.as_str(), 65535) {
        Some(number) => {
            if host.as_str().is_empty() || number == 0 {
                return None;
            }
            let digits = text::decimal_of(number);
            Some(format_endpoint(host.as_str(), digits.as_str()))
        },
        None => None,
    }
}

proof fn lemma_trimmed_ends(s: Seq<char>)
    requires
        s.len() == 0 || (!text::is_space(s[0]) && !text::is_space(s.last())),
    ensures
        text::trimmed(s) == s,
{
}

proof fn lemma_digits_are_plain(port: Seq<char>)
    requires
        is_port(port),
    ensures
        port.len() > 0,
        forall|i: int|
            0 <= i < port.len() ==> text::is_digit(#[trigger] port[i]) || (i == 0 && port[i] == '+'),
{
    let digits = text::unsigned_digits(port);
    assert forall|i: int| 0 <= i < port.len() implies text::is_digit(#[trigger] port[i]) || (i == 0
        && port[i] == '+') by {
        if port[0] == '+' {
            if i > 0 {
                assert(port[i] == digits[i - 1]);
            }
        } else {
            assert(port[i] == digits[i]);
        }
    }
}

proof fn lemma_last_index_before(front: Seq<char>, back: Seq<char>, c: char)
    requires
        forall|i: int| 0 <= i < back.len() ==> back[i] != c,
    ensures
        text::last_index(front.push(c) + back, c) == front.len(),
    decreases back.len(),
{
    let s = front.push(c) + back;
    if back.len() == 0 {
        assert(s.last() == c);
    } else {
        assert(s.last() == back.last());
        assert(s.drop_last() =~= front.push(c) + back.drop_last());
        lemma_last_index_before(front, back.drop_last(), c);
    }
}

proof fn lemma_last_pair_before(front: Seq<char>, back: Seq<char>)
    requires
        forall|i: int| 0 <= i < back.len() ==> back[i] != ':',
    ensures
        text::last_pair(front.push(']').push(':') + back, ']', ':') == front.len(),
    decreases back.len(),
{
    let s = front.push(']').push(':') + back;
    if back.len() == 0 {
        assert(s.last() == ':');
        assert(s[s.len() - 2] == ']');
    } else {
        assert(s.last() == back.last());
        assert(s.drop_last() =~= front.push(']').push(':') + back.drop_last());
        lemma_last_pair_before(front, back.drop_last());
    }
}

proof fn lemma_no_pair(s: Seq<char>)
    requires
        forall|i: int| 1 <= i < s.len() && #[trigger] s[i] == ':' ==> s[i - 1] != ']',
    ensures
        text::last_pair(s, ']', ':') < 0,
    decreases s.len(),
{
    if s.len() >= 2 {
        lemma_no_pair(s.drop_last());
    }
}

/// Splitting a formatted endpoint gives back its host and its port, for every
/// host without surrounding white space and without brackets of its own.
pub proof fn law_split_undoes_format(host: Seq<char>, port: Seq<char>)
    requires
        text::trimmed(host) == host,
        !is_bracketed(host),
        is_port(port),
    ensures
        endpoint_parts(endpoint_text(host, port)) == (host, port),
{
    reveal_strlit("[");
    reveal_strlit("]:");
    reveal_strlit(":");
    lemma_digits_are_plain(port);
    let e = endpoint_text(host, port);
    assert(e.last() == port.last());
    if host.contains(':') {
        assert(e =~= seq!['['] + host.push(']').push(':') + port);
        lemma_trimmed_ends(e);
        let rest = e.skip(1);
        assert(rest =~= host.push(']').push(':') + port);
        lemma_last_pair_before(host, port);
        assert(rest.take(host.len() as int) =~= host);
        assert(rest.skip(host.len() as int + 2) =~= port);
    } else {
        assert(e =~= host.push(':') + port);
        assert(host.len() > 0 ==> !text::is_space(host[0])) by {
            if host.len() > 0 && text::is_space(host[0]) {
                lemma_trim_shortens(host);
            }
        }
        lemma_trimmed_ends(e);
        lemma_last_index_before(host, port, ':');
        assert(e.take(host.len() as int) =~= host);
        assert(e.skip(host.len() as int + 1) =~= port);
        if e[0] == '[' {
            let rest = e.skip(1);
            assert forall|i: int| 1 <= i < rest.len() && #[trigger] rest[i] == ':' implies rest[i
                - 1] != ']' by {
                assert(rest[i] == e[i + 1]);
                if i + 1 < host.len() {
                    assert(host[i + 1] == ':');
                } else if i + 1 > host.len() {
                    assert(e[i + 1] == port[i - host.len()]);
                }
            }
            lemma_no_pair(rest);
        }
    }
}

proof fn lemma_trim_shortens(s: Seq<char>)
    requires
        s.len() > 0,
        text::is_space(s[0]),
    ensures
        text::trimmed(s).len() < s.len(),
{
    lemma_start_no_longer(s.drop_first());
    lemma_end_no_longer(text::trimmed_start(s));
}

proof fn lemma_start_no_longer(s: Seq<char>)
    ensures
        text::trimmed_start(s).len() <= s.len(),
    decreases s.len(),
{
    if s.len() > 0 {
        lemma_start_no_longer(s.drop_first());
    }
}

proof fn lemma_end_no_longer(s: Seq<char>)
    ensures
        text::trimmed_end(s).len() <= s.len(),
    decreases s.len(),
{
    if s.len() > 0 {
        lemma_end_no_longer(s.drop_last());
    }
}

proof fn lemma_last_index_none(s: Seq<char>, c: char)
    requires
        !s.contains(c),
    ensures
        text::last_index(s, c) < 0,
{
    text::law_last_place(s, c);
}

/// A value without a colon is a host on the default port.
pub proof fn lemma_plain_host(value: Seq<char>)
    requires
        !value.contains(':'),
    ensures
        endpoint_parts(value) == (text::trimmed(value), DEFAULT_PORT@),
        !text::trimmed(value).contains(':'),
{
    let v = text::trimmed(value);
    text::law_trimming_takes_the_ends(value);
    let (from, to) = choose|from: int, to: int|
        0 <= from <= to <= value.len() && #[trigger] value.subrange(from, to) == v && (forall|
            i: int,
        | 0 <= i < from ==> text::is_space(#[trigger] value[i])) && (forall|i: int|
            to <= i < value.len() ==> text::is_space(#[trigger] value[i]));
    assert forall|i: int| 0 <= i < v.len() implies v[i] != ':' by {
        assert(v[i] == value[from + i]);
    }
    lemma_last_index_none(v, ':');
    if v.len() > 0 {
        let rest = v.skip(1);
        text::law_last_place_of_a_pair(rest, ']', ':');
        if text::last_pair(rest, ']', ':') >= 0 {
            assert(v[text::last_pair(rest, ']', ':') + 2] == ':');
        }
    }
}

/// The text of an endpoint is longer than its host.
pub proof fn lemma_text_is_longer(host: Seq<char>, port: Seq<char>)
    requires
        text::trimmed(host) == host,
    ensures
        endpoint_text(host, port).len() > host.len(),
        is_port(port) && !is_bracketed(host) ==> text::trimmed(endpoint_text(host, port))
            == endpoint_text(host, port),
{
    reveal_strlit("[");
    reveal_strlit("]:");
    reveal_strlit(":");
    if is_port(port) && !is_bracketed(host) {
        lemma_digits_are_plain(port);
        let e = endpoint_text(host, port);
        assert(e.last() == port.last());
        if host.contains(':') {
            assert(e[0] == '[');
        } else {
            assert(host.len() > 0 ==> !text::is_space(host[0])) by {
                if host.len() > 0 && text::is_space(host[0]) {
                    lemma_trim_shortens(host);
                }
            }
            if host.len() > 0 {
                assert(e[0] == host[0]);
            } else {
                assert(e[0] == ':');
            }
        }
        lemma_trimmed_ends(e);
    }
}

proof fn lemma_decimal_is_trimmed(n: nat)
    ensures
        text::trimmed(text::decimal(n)) == text::decimal(n),
        text::decimal(n).len() > 0,
        !text::decimal(n).contains(':'),
{
    text::law_decimal_has_no_leading_zero(n);
    text::lemma_decimal_digits(n);
    lemma_trimmed_ends(text::decimal(n));
}

/// A host and a number between 1 and 65535 name the endpoint at that port; an empty
/// port field stands for port 5900. No other number is a port, and nothing is an
/// endpoint without a host.
pub proof fn law_fields_name_an_endpoint(host: Seq<char>, number: nat)
    requires
        text::trimmed(host) == host,
        !host.contains(':'),
    ensures
        host.len() > 0 && 1 <= number <= 65535 ==> field_endpoint(host, text::decimal(number))
            == Some(host + seq![':'] + text::decimal(number)),
        host.len() > 0 ==> field_endpoint(host, Seq::empty()) == Some(
            host + seq![':', '5', '9', '0', '0'],
        ),
        number == 0 || number > 65535 ==> field_endpoint(host, text::decimal(number)) is None,
        host.len() == 0 ==> field_endpoint(host, text::decimal(number)) is None,
{
    reveal_strlit(":");
    reveal_strlit("5900");
    assert(":"@ =~= seq![':']);
    lemma_plain_host(host);
    lemma_decimal_is_trimmed(number);
    text::law_counting(host, ':', ':');
    text::lemma_decimal_parses(number, number);
    if number <= 65535 {
        text::lemma_decimal_parses(number, 65535);
    } else {
        text::lemma_decimal_digits(number);
        text::law_numbers_are_read_in_decimal(text::decimal(number), '0', 65535);
    }
    let default = seq!['5', '9', '0', '0'];
    assert(DEFAULT_PORT@ =~= default);
    assert(text::decimal(5900) =~= default) by {
        reveal_with_fuel(text::decimal, 5);
    }
    text::lemma_decimal_parses(5900, 65535);
    assert(host + seq![':'] + default =~= host + seq![':', '5', '9', '0', '0']);
    assert(text::trimmed(Seq::<char>::empty()) =~= Seq::<char>::empty());
}

/// A port that an address carries goes before the one of the port field.
pub proof fn law_ports_of_addresses_come_first(host: Seq<char>, number: nat, port: Seq<char>)
    requires
        text::trimmed(host) == host,
        !is_bracketed(host),
        host.len() > 0,
        1 <= number <= 65535,
    ensures
        field_endpoint(endpoint_text(host, text::decimal(number)), port) == Some(
            endpoint_text(host, text::decimal(number)),
        ),
{
    text::lemma_decimal_parses(number, 65535);
    law_split_undoes_format(host, text::decimal(number));
    lemma_text_is_longer(host, text::decimal(number));
}

/// A host with several colons, as an IPv6 address has them, is put into brackets; the
/// port comes from its own field.
pub proof fn law_hosts_with_colons_are_bracketed(host: Seq<char>, number: nat, i: int, j: int)
    requires
        text::trimmed(host) == host,
        host.len() > 0,
        host[0] != '[',
        0 <= i < j < host.len(),
        host[i] == ':',
        host[j] == ':',
        1 <= number <= 65535,
    ensures
        field_endpoint(host, text::decimal(number)) == Some(
            seq!['['] + host + seq![']', ':'] + text::decimal(number),
        ),
{
    reveal_strlit("[");
    reveal_strlit("]:");
    assert("["@ =~= seq!['[']);
    assert("]:"@ =~= seq![']', ':']);
    text::law_last_place(host, ':');
    let colon = text::last_index(host, ':');
    assert(colon >= j);
    assert(host.take(colon)[i] == ':');
    assert(host.take(colon).contains(':'));
    lemma_decimal_is_trimmed(number);
    text::lemma_decimal_parses(number, 65535);
    lemma_two_occurrences(host, i, j);
    assert(host.contains(':'));
}

proof fn lemma_two_occurrences(s: Seq<char>, i: int, j: int)
    requires
        0 <= i < j < s.len(),
        s[i] == ':',
        s[j] == ':',
    ensures
        text::occurrences(s, ':') >= 2,
    decreases s.len(),
{
    let front = s.drop_last();
    if j < s.len() - 1 {
        lemma_two_occurrences(front, i, j);
    } else {
        assert(front[i] == ':');
        assert(front.contains(':'));
        text::law_counting(front, ':', ':');
    }
}

proof fn lemma_one_colon(host: Seq<char>, rest: Seq<char>)
    requires
        !host.contains(':'),
        !rest.contains(':'),
    ensures
        text::occurrences(host + seq![':'] + rest, ':') == 1,
    decreases rest.len(),
{
    let a = host + seq![':'] + rest;
    text::law_counting(host, ':', ':');
    if rest.len() == 0 {
        assert(a =~= host.push(':'));
    } else {
        let shorter = rest.drop_last();
        assert forall|i: int| 0 <= i < shorter.len() implies shorter[i] != ':' by {
            assert(rest[i] == shorter[i]);
        }
        lemma_one_colon(host, shorter);
        assert(a.drop_last() =~= host + seq![':'] + shorter);
        assert(rest[rest.len() - 1] != ':');
    }
}

/// An address with a colon and something after it that is no port names no endpoint,
/// whatever the port's field holds.
pub proof fn law_addresses_with_a_bad_port_are_refused(
    host: Seq<char>,
    rest: Seq<char>,
    port: Seq<char>,
)
    requires
        text::trimmed(host + seq![':'] + rest) == host + seq![':'] + rest,
        !host.contains(':'),
        !rest.contains(':'),
        text::parsed_unsigned(rest, 65535) is None,
    ensures
        field_endpoint(host + seq![':'] + rest, port) is None,
{
    let a = host + seq![':'] + rest;
    text::law_last_place(a, ':');
    assert(a[host.len() as int] == ':');
    let colon = text::last_index(a, ':');
    assert(colon == host.len()) by {
        if colon > host.len() {
            assert(a[colon] == rest[colon - host.len() - 1]);
        }
    }
    assert(a.skip(colon + 1) =~= rest);
    lemma_one_colon(host, rest);
    let tail = a.skip(1);
    let pair = text::last_pair(tail, ']', ':');
    text::law_last_place_of_a_pair(tail, ']', ':');
    if pair >= 0 {
        assert(a[pair + 2] == ':');
        assert(pair + 2 == host.len()) by {
            if pair + 2 < host.len() {
                assert(host[pair + 2] == ':');
            } else if pair + 2 > host.len() {
                assert(rest[pair + 1 - host.len()] == ':');
            }
        }
        assert(tail.skip(pair + 2) =~= rest);
    }
}

/// A host in brackets stays as it is, one with colons is put into brackets, and any
/// other stands bare; the port follows.
pub proof fn law_endpoints_are_written_out(host: Seq<char>, port: Seq<char>)
    requires
        text::trimmed(host) == host,
    ensures
        host.len() > 0 && host[0] == '[' && host.last() == ']' ==> endpoint_text(host, port) == host
            + seq![':'] + port,
        !host.contains(':') ==> endpoint_text(host, port) == host + seq![':'] + port,
        host.contains(':') && host[0] != '[' ==> endpoint_text(host, port) == seq!['['] + host
            + seq![']', ':'] + port,
{
    reveal_strlit("[");
    reveal_strlit("]:");
    reveal_strlit(":");
    assert("["@ =~= seq!['[']);
    assert("]:"@ =~= seq![']', ':']);
    assert(":"@ =~= seq![':']);
}

} // verus!
