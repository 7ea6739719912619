//! Names of recording files.

use crate::text;
use vstd::prelude::*;
use vstd::utf8;

verus! {

/// Whether Unicode counts `c` among the letters and numbers.
pub uninterp spec fn unicode_alphanumeric(c: char) -> bool;

/// `char::is_alphanumeric` tells the letters and numbers of Unicode. Among the
/// ASCII characters these are the letters `a` to `z` and `A` to `Z` and the
/// digits.
pub assume_specification[ char::is_alphanumeric ](c: char) -> (alphanumeric: bool)
    ensures
        alphanumeric == unicode_alphanumeric(c),
        (c as u32) < 128 ==> alphanumeric == ('a' <= c <= 'z' || 'A' <= c <= 'Z' || '0' <= c <= '9'),
;

/// The character that stands for `c` in a file name.
pub open spec fn safe_char(c: char) -> char {
    if unicode_alphanumeric(c) || c == '.' || c == '-' || c == '_' || c == ' ' {
        c
    } else {
        '-'
    }
}

/// Whether `c`, if it is an ASCII character, may stand in a file name: a letter, a
/// digit, a dot, a hyphen, an underscore or a space.
pub open spec fn is_safe_ascii(c: char) -> bool {
    (c as u32) < 128 ==> {
        ||| 'a' <= c <= 'z'
        ||| 'A' <= c <= 'Z'
        ||| '0' <= c <= '9'
        ||| c == '.'
        ||| c == '-'
        ||| c == '_'
        ||| c == ' '
    }
}

/// Whether `c` is cut off at the ends of a file name.
pub open spec fn is_edge(c: char) -> bool {
    c == '-' || c == ' '
}

/// `s` without hyphens and spaces in front.
pub open spec fn trimmed_front(s: Seq<char>) -> Seq<char>
    decreases s.len(),
{
    if s.len() > 0 && is_edge(s[0]) {
        trimmed_front(s.drop_first())
    } else {
        s
    }
}

/// `s` without hyphens and spaces behind.
pub open spec fn trimmed_back(s: Seq<char>) -> Seq<char>
    decreases s.len(),
{
    if s.len() > 0 && is_edge(s.last()) {
        trimmed_back(s.drop_last())
    } else {
        s
    }
}

/// `s` without a port: what stands in front of the last hyphen, if only digits
/// stand behind it and something in front.
pub open spec fn without_port(s: Seq<char>) -> Seq<char> {
    let hyphen = text::last_index(s, '-');
    if hyphen > 0 && (forall|i: int|
        hyphen < i < s.len() ==> text::is_digit(#[trigger] s[i])) {
        s.take(hyphen)
    } else {
        s
    }
}

/// The bytes of `c` in UTF-8.
pub open spec fn char_width(c: char) -> nat {
    let u = c as u32;
    if u < 0x80 {
        1
    } else if u < 0x800 {
        2
    } else if u < 0x1_0000 {
        3
    } else {
        4
    }
}

/// The bytes of `s` in UTF-8.
pub open spec fn byte_len(s: Seq<char>) -> nat
    decreases s.len(),
{
    if s.len() == 0 {
        0
    } else {
        byte_len(s.drop_last()) + char_width(s.last())
    }
}

/// The longest front part of `s` that has at most `limit` bytes.
pub open spec fn within_bytes(s: Seq<char>, limit: nat) -> Seq<char>
    decreases s.len(),
{
    if byte_len(s) <= limit {
        s
    } else {
        within_bytes(s.drop_last(), limit)
    }
}

/// The bytes that a label may have.
pub const MAX_LABEL_BYTES: usize = 48;

/// The label made of safe characters: without hyphens and spaces at the ends and
/// without a port, of at most 48 bytes, and never empty.
pub open spec fn label_of(safe: Seq<char>) -> Seq<char> {
    let label = within_bytes(without_port(trimmed_back(trimmed_front(safe))), 48);
    if label.len() == 0 {
        "ard"@
    } else {
        label
    }
}

/// The label for an endpoint, whose characters are first made safe.
pub open spec fn label_for(endpoint: Seq<char>) -> Seq<char> {
    label_of(endpoint.map_values(|c: char| safe_char(c)))
}

fn safe_chars(endpoint: &str) -> (chars: Vec<char>)
    ensures
        chars@ == endpoint@.map_values(|c: char| safe_char(c)),
        forall|i: int| 0 <= i < chars@.len() ==> is_safe_ascii(#[trigger] chars@[i]),
{
    let source = text::chars_of(endpoint);
    let mut chars: Vec<char> = Vec::new();
    for i in 0..source.len()
        invariant
            source@ == endpoint@,
            chars@ == endpoint@.take(i as int).map_values(|c: char| safe_char(c)),
            forall|k: int| 0 <= k < chars@.len() ==> is_safe_ascii(#[trigger] chars@[k]),
    {
        let c = source[i];
        if c.is_alphanumeric() || c == '.' || c == '-' || c == '_' || c == ' ' {
            chars.push(c);
        } else {
            chars.push('-');
        }
        assert(chars@ =~= endpoint@.take(i as int + 1).map_values(|c: char| safe_char(c)));
    }
    assert(endpoint@.take(endpoint@.len() as int) =~= endpoint@);
    chars
}

/// The bounds of `chars` without hyphens and spaces at the ends.
fn trim_edges(chars: &Vec<char>) -> (bounds: (usize, usize))
    ensures
        bounds.0 <= bounds.1 <= chars@.len(),
        chars@.subrange(bounds.0 as int, bounds.1 as int) == trimmed_back(trimmed_front(chars@)),
{
    let mut start: usize = 0;
    assert(chars@.skip(0) =~= chars@);
    while start < chars.len() && (chars[start] == '-' || chars[start] == ' ')
        invariant
            start <= chars@.len(),
            trimmed_front(chars@.skip(start as int)) == trimmed_front(chars@),
        decreases chars@.len() - start,
    {
        assert(chars@.skip(start as int).drop_first() =~= chars@.skip(start as int + 1));
        start += 1;
    }
    let ghost front = trimmed_front(chars@);
    assert(front == chars@.skip(start as int));
    let mut end: usize = chars.len();
    assert(chars@.subrange(start as int, end as int) =~= front);
    while start < end && (chars[end - 1] == '-' || chars[end - 1] == ' ')
        invariant
            start <= end <= chars@.len(),
            trimmed_back(chars@.subrange(start as int, end as int)) == trimmed_back(front),
        decreases end,
    {
        assert(chars@.subrange(start as int, end as int).drop_last() =~= chars@.subrange(
            start as int,
            end as int - 1,
        ));
        end -= 1;
    }
    (start, end)
}

/// How many characters are left of `chars` without a port.
fn port_cut(chars: &[char]) -> (len: usize)
    ensures
        len <= chars@.len(),
        chars@.take(len as int) == without_port(chars@),
{
    match text::find_last(chars, '-') {
        Some(hyphen) => {
            if hyphen == 0 {
                assert(chars@.take(chars@.len() as int) =~= chars@);
                return chars.len();
            }
            let total: usize = chars.len();
            assert(hyphen < total);
            let mut i: usize = hyphen + 1;
            while i < chars.len()
                invariant
                    hyphen < i <= chars@.len(),
                    hyphen == text::last_index(chars@, '-'),
                    hyphen > 0,
                    forall|k: int| hyphen < k < i ==> text::is_digit(#[trigger] chars@[k]),
                decreases chars@.len() - i,
            {
                let c = chars[i];
                if c < '0' || c > '9' {
                    assert(!text::is_digit(chars@[i as int]));
                    assert(chars@.take(chars@.len() as int) =~= chars@);
                    return chars.len();
                }
                i += 1;
            }
            hyphen
        },
        None => {
            assert(chars@.take(chars@.len() as int) =~= chars@);
            chars.len()
        },
    }
}

fn width_of(c: char) -> (width: usize)
    ensures
        width == char_width(c),
        1 <= width <= 4,
{
    let u: u32 = c as u32;
    if u < 0x80 {
        1
    } else if u < 0x800 {
        2
    } else if u < 0x1_0000 {
        3
    } else {
        4
    }
}

proof fn lemma_byte_len_front(s: Seq<char>, i: int)
    requires
        0 <= i <= s.len(),
    ensures
        byte_len(s.take(i)) <= byte_len(s),
    decreases s.len() - i,
{
    if i < s.len() {
        lemma_byte_len_front(s, i + 1);
        assert(s.take(i + 1).drop_last() =~= s.take(i));
    } else {
        assert(s.take(i) =~= s);
    }
}

proof fn lemma_within(s: Seq<char>, i: int, limit: nat)
    requires
        0 <= i < s.len(),
        byte_len(s.take(i)) <= limit,
        byte_len(s.take(i + 1)) > limit,
    ensures
        within_bytes(s, limit) == s.take(i),
    decreases s.len(),
{
    lemma_byte_len_front(s, i + 1);
    let front = s.drop_last();
    if i + 1 == s.len() {
        assert(front =~= s.take(i));
        assert(within_bytes(front, limit) == front);
    } else {
        assert(front.take(i) =~= s.take(i));
        assert(front.take(i + 1) =~= s.take(i + 1));
        lemma_within(front, i, limit);
    }
}

/// How many of the first `len` characters have at most 48 bytes together.
fn byte_cut(chars: &[char], len: usize) -> (cut: usize)
    requires
        len <= chars@.len(),
    ensures
        cut <= len,
        chars@.take(cut as int) == within_bytes(chars@.take(len as int), 48),
{
    let ghost s = chars@.take(len as int);
    let mut bytes: usize = 0;
    let mut i: usize = 0;
    assert(s.take(0) =~= Seq::<char>::empty());
    while i < len
        invariant
            i <= len <= chars@.len(),
            s == chars@.take(len as int),
            bytes == byte_len(s.take(i as int)),
            bytes <= 48,
        decreases len - i,
    {
        let width: usize = width_of(chars[i]);
        assert(s.take(i as int + 1).drop_last() =~= s.take(i as int));
        if bytes + width > MAX_LABEL_BYTES {
            proof {
                lemma_within(s, i as int, 48);
                assert(chars@.take(i as int) =~= s.take(i as int));
            }
            return i;
        }
        bytes = bytes + width;
        i += 1;
    }
    assert(s.take(len as int) =~= s);
    len
}

/// Reduces an endpoint to something safe to use as a file name: none of its
/// characters separates directories or is otherwise special.
pub fn sanitize_label(endpoint: &str) -> (label: String)
    ensures
        label@ == label_for(endpoint@),
        forall|i: int| 0 <= i < label@.len() ==> is_safe_ascii(#[trigger] label@[i]),
{
    let chars = safe_chars(endpoint);
    let label = label_from_safe(&chars);
    proof {
        reveal_strlit("ard");
        lemma_label_chars(chars@);
        assert forall|i: int| 0 <= i < label@.len() implies is_safe_ascii(
            #[trigger] label@[i],
        ) by {
            if label@ != "ard"@ {
                assert(chars@.contains(label@[i]));
            }
        }
    }
    label
}

/// The label made of safe characters.
pub fn label_from_safe(chars: &Vec<char>) -> (label: String)
    ensures
        label@ == label_of(chars@),
{
    let (start, end) = trim_edges(chars);
    let trimmed = text::slice_of(chars, start, end);
    let len: usize = port_cut(trimmed);
    let cut: usize = byte_cut(trimmed, len);
    if cut == 0 {
        return "ard".to_owned();
    }
    let label = vstd::slice::slice_subrange(trimmed, 0, cut);
    assert(label@ =~= trimmed@.take(cut as int));
    text::string_from(label)
}

proof fn lemma_trimmed_chars(s: Seq<char>)
    ensures
        forall|i: int|
            0 <= i < trimmed_front(s).len() ==> s.contains(#[trigger] trimmed_front(s)[i]),
        forall|i: int| 0 <= i < trimmed_back(s).len() ==> s.contains(#[trigger] trimmed_back(s)[i]),
    decreases s.len(),
{
    if s.len() > 0 {
        lemma_trimmed_chars(s.drop_first());
        lemma_trimmed_chars(s.drop_last());
        assert forall|i: int| 0 <= i < trimmed_front(s).len() implies s.contains(
            #[trigger] trimmed_front(s)[i],
        ) by {
            if is_edge(s[0]) {
                let c = trimmed_front(s.drop_first())[i];
                let k = choose|k: int|
                    0 <= k < s.drop_first().len() && s.drop_first()[k] == c;
                assert(s[k + 1] == c);
            }
        }
        assert forall|i: int| 0 <= i < trimmed_back(s).len() implies s.contains(
            #[trigger] trimmed_back(s)[i],
        ) by {
            if is_edge(s.last()) {
                let c = trimmed_back(s.drop_last())[i];
                let k = choose|k: int| 0 <= k < s.drop_last().len() && s.drop_last()[k] == c;
                assert(s[k] == c);
            }
        }
    }
}

proof fn lemma_within_front(s: Seq<char>, limit: nat)
    ensures
        within_bytes(s, limit).len() <= s.len(),
        within_bytes(s, limit) == s.take(within_bytes(s, limit).len() as int),
        byte_len(within_bytes(s, limit)) <= limit,
    decreases s.len(),
{
    if byte_len(s) <= limit {
        assert(s.take(s.len() as int) =~= s);
    } else {
        lemma_within_front(s.drop_last(), limit);
        let w = within_bytes(s, limit);
        assert(s.drop_last().take(w.len() as int) =~= s.take(w.len() as int));
    }
}

/// Every character of a label was there before, but for those of the stand-in.
proof fn lemma_label_chars(safe: Seq<char>)
    ensures
        label_of(safe) == "ard"@ || forall|i: int|
            0 <= i < label_of(safe).len() ==> safe.contains(#[trigger] label_of(safe)[i]),
{
    let front = trimmed_front(safe);
    let trimmed = trimmed_back(front);
    let host = without_port(trimmed);
    let label = within_bytes(host, 48);
    lemma_trimmed_chars(safe);
    lemma_trimmed_chars(front);
    lemma_within_front(host, 48);
    text_last_index_bound(trimmed);
    assert forall|i: int| 0 <= i < label.len() implies safe.contains(#[trigger] label[i]) by {
        assert(label[i] == host[i]);
        assert(host[i] == trimmed[i]);
        assert(front.contains(trimmed[i]));
        let k = choose|k: int| 0 <= k < front.len() && front[k] == trimmed[i];
        assert(safe.contains(front[k]));
    }
}

/// A label is never empty and has at most 48 bytes. Unless it is the stand-in for
/// an endpoint without a usable character, it is made of letters, numbers, dots,
/// hyphens, underscores and spaces only.
pub proof fn law_label_is_safe(endpoint: Seq<char>)
    ensures
        label_for(endpoint).len() > 0,
        byte_len(label_for(endpoint)) <= 48,
        label_for(endpoint) == "ard"@ || forall|i: int|
            0 <= i < label_for(endpoint).len() ==> {
                let c = #[trigger] label_for(endpoint)[i];
                unicode_alphanumeric(c) || c == '.' || c == '-' || c == '_' || c == ' '
            },
{
    reveal_strlit("ard");
    let safe = endpoint.map_values(|c: char| safe_char(c));
    let host = without_port(trimmed_back(trimmed_front(safe)));
    let label = within_bytes(host, 48);
    lemma_within_front(host, 48);
    lemma_label_chars(safe);
    if label.len() == 0 {
        assert("ard"@ =~= seq!['a', 'r', 'd']);
        reveal_with_fuel(byte_len, 4);
        assert(byte_len("ard"@) == 3) by {
            assert("ard"@.drop_last() =~= seq!['a', 'r']);
            assert(seq!['a', 'r'].drop_last() =~= seq!['a']);
            assert(seq!['a'].drop_last() =~= Seq::<char>::empty());
        }
    } else if label != "ard"@ {
        assert forall|i: int| 0 <= i < label.len() implies {
            let c = #[trigger] label[i];
            unicode_alphanumeric(c) || c == '.' || c == '-' || c == '_' || c == ' '
        } by {
            assert(safe.contains(label_of(safe)[i]));
            let m = choose|m: int| 0 <= m < safe.len() && safe[m] == label[i];
            assert(safe[m] == safe_char(endpoint[m]));
        }
    }
}

proof fn text_last_index_bound(s: Seq<char>)
    ensures
        text::last_index(s, '-') < s.len(),
    decreases s.len(),
{
    if s.len() > 0 {
        text_last_index_bound(s.drop_last());
    }
}

/// The bytes that a label counts are its bytes in UTF-8.
pub proof fn law_label_bytes_are_utf8(s: Seq<char>)
    ensures
        byte_len(s) == utf8::encode_utf8(s).len(),
    decreases s.len(),
{
    if s.len() > 0 {
        lemma_byte_len_head(s);
        law_label_bytes_are_utf8(s.drop_first());
        assert(utf8::encode_utf8(s) == utf8::encode_scalar(s[0] as u32) + utf8::encode_utf8(
            s.drop_first(),
        ));
        assert(utf8::encode_scalar(s[0] as u32).len() == char_width(s[0])) by {
            utf8::char_is_scalar(s[0]);
        }
    }
}

proof fn lemma_byte_len_head(s: Seq<char>)
    requires
        s.len() > 0,
    ensures
        byte_len(s) == char_width(s[0]) + byte_len(s.drop_first()),
    decreases s.len(),
{
    if s.len() == 1 {
        assert(s.drop_last() =~= Seq::<char>::empty());
        assert(s.drop_first() =~= Seq::<char>::empty());
    } else {
        lemma_byte_len_head(s.drop_last());
        assert(s.drop_first().drop_last() =~= s.drop_last().drop_first());
        assert(s.drop_first().last() == s.last());
    }
}

/// The name of one recording file: only a segment behind the first shows its
/// number.
pub open spec fn file_name(label: Seq<char>, index: nat, segment: nat) -> Seq<char> {
    if segment <= 1 {
        label + " "@ + text::decimal(index) + ".mp4"@
    } else {
        label + " "@ + text::decimal(index) + "-"@ + text::decimal(segment) + ".mp4"@
    }
}

/// Path of one recording segment, relative to the recording directory.
pub fn output_path(label: &str, index: usize, segment: usize) -> (path: String)
    ensures
        path@ == file_name(label@, index as nat, segment as nat),
{
    let mut path = label.to_owned();
    path.append(" ");
    text::push_decimal(&mut path, index as u64);
    if segment > 1 {
        path.append("-");
        text::push_decimal(&mut path, segment as u64);
    }
    path.append(".mp4");
    assert(path@ =~= file_name(label@, index as nat, segment as nat));
    path
}

/// The largest index that is tried for a recording.
pub const MAX_RECORDING_INDEX: usize = 100_000;

/// First unused recording index; `is_taken` says of an index whether its file
/// exists. If every index is taken, the first one.
pub fn next_index<F: Fn(usize) -> bool>(is_taken: F) -> (index: usize)
    requires
        forall|i: usize| 1 <= i <= MAX_RECORDING_INDEX ==> is_taken.requires((i,)),
    ensures
        1 <= index <= MAX_RECORDING_INDEX,
        (is_taken.ensures((index,), false) && forall|i: usize|
            1 <= i < index ==> #[trigger] is_taken.ensures((i,), true)) || (index == 1 && forall|
            i: usize,
        |
            1 <= i <= MAX_RECORDING_INDEX ==> #[trigger] is_taken.ensures((i,), true)),
{
    let mut index: usize = 1;
    while index <= MAX_RECORDING_INDEX
        invariant
            1 <= index <= MAX_RECORDING_INDEX + 1,
            forall|i: usize| 1 <= i <= MAX_RECORDING_INDEX ==> is_taken.requires((i,)),
            forall|i: usize| 1 <= i < index ==> #[trigger] is_taken.ensures((i,), true),
        decreases MAX_RECORDING_INDEX + 1 - index,
    {
        let taken = is_taken(index);
        if !taken {
            return index;
        }
        index += 1;
    }
    1
}

proof fn lemma_decimal_injective(a: nat, b: nat)
    requires
        text::decimal(a) == text::decimal(b),
    ensures
        a == b,
{
    text::lemma_decimal_digits(a);
    text::lemma_decimal_digits(b);
}

/// What distinguishes the files of one label.
spec fn file_body(index: nat, segment: nat) -> Seq<char> {
    if segment <= 1 {
        text::decimal(index)
    } else {
        text::decimal(index) + "-"@ + text::decimal(segment)
    }
}

proof fn lemma_bodies_differ(a: nat, s: nat, b: nat, t: nat)
    requires
        s >= 1,
        t >= 1,
        file_body(a, s) == file_body(b, t),
    ensures
        a == b,
        s == t,
{
    reveal_strlit("-");
    let x = file_body(a, s);
    let y = file_body(b, t);
    let da = text::decimal(a);
    let db = text::decimal(b);
    text::lemma_decimal_digits(a);
    text::lemma_decimal_digits(b);
    assert(forall|i: int| 0 <= i < da.len() ==> x[i] == da[i]);
    assert(forall|i: int| 0 <= i < db.len() ==> y[i] == db[i]);
    assert(s > 1 ==> x[da.len() as int] == '-');
    assert(t > 1 ==> y[db.len() as int] == '-');
    if s > 1 && da.len() < db.len() {
        assert(text::is_digit(db[da.len() as int]));
        assert(false);
    }
    if t > 1 && db.len() < da.len() {
        assert(text::is_digit(da[db.len() as int]));
        assert(false);
    }
    if s == 1 && t > 1 {
        assert(x.len() > db.len());
        assert(false);
    }
    if t == 1 && s > 1 {
        assert(y.len() > da.len());
        assert(false);
    }
    assert(da.len() == db.len());
    assert(da =~= x.take(da.len() as int));
    assert(db =~= y.take(db.len() as int));
    lemma_decimal_injective(a, b);
    if s > 1 {
        assert(text::decimal(s) =~= x.skip(da.len() as int + 1));
        assert(text::decimal(t) =~= y.skip(db.len() as int + 1));
        lemma_decimal_injective(s, t);
    }
}

/// No two recordings of a label write to the same file: takes and segments with
/// different numbers have different names.
pub proof fn law_files_differ(label: Seq<char>, a: nat, s: nat, b: nat, t: nat)
    requires
        s >= 1,
        t >= 1,
        a != b || s != t,
    ensures
        file_name(label, a, s) != file_name(label, b, t),
{
    reveal_strlit(" ");
    reveal_strlit(".mp4");
    let x = file_name(label, a, s);
    let y = file_name(label, b, t);
    if x == y {
        let from = label.len() as int + 1;
        assert(x.subrange(from, x.len() - 4) =~= file_body(a, s));
        assert(y.subrange(from, y.len() - 4) =~= file_body(b, t));
        lemma_bodies_differ(a, s, b, t);
    }
}

proof fn lemma_front_cut(s: Seq<char>)
    ensures
        trimmed_front(s).len() <= s.len(),
        trimmed_front(s) == s.skip(s.len() - trimmed_front(s).len()),
        forall|i: int| 0 <= i < s.len() - trimmed_front(s).len() ==> is_edge(#[trigger] s[i]),
        trimmed_front(s).len() > 0 ==> !is_edge(trimmed_front(s)[0]),
    decreases s.len(),
{
    if s.len() > 0 && is_edge(s[0]) {
        let rest = s.drop_first();
        lemma_front_cut(rest);
        let n = s.len() - trimmed_front(s).len();
        assert(rest.skip(n - 1) =~= s.skip(n));
        assert forall|i: int| 0 <= i < n implies is_edge(#[trigger] s[i]) by {
            if i > 0 {
                assert(rest[i - 1] == s[i]);
            }
        }
    } else {
        assert(s.skip(0) =~= s);
    }
}

proof fn lemma_back_cut(s: Seq<char>)
    ensures
        trimmed_back(s).len() <= s.len(),
        trimmed_back(s) == s.take(trimmed_back(s).len() as int),
        forall|i: int| trimmed_back(s).len() <= i < s.len() ==> is_edge(#[trigger] s[i]),
        trimmed_back(s).len() > 0 ==> !is_edge(trimmed_back(s).last()),
    decreases s.len(),
{
    if s.len() > 0 && is_edge(s.last()) {
        lemma_back_cut(s.drop_last());
        let n = trimmed_back(s).len() as int;
        assert(s.drop_last().take(n) =~= s.take(n));
        assert forall|i: int| n <= i < s.len() implies is_edge(#[trigger] s[i]) by {
            if i < s.len() - 1 {
                assert(s.drop_last()[i] == s[i]);
            }
        }
    } else {
        assert(s.take(s.len() as int) =~= s);
    }
}

/// Hyphens and spaces go away at both ends, and nothing else does.
pub proof fn law_labels_lose_their_edges(s: Seq<char>)
    ensures
        ({
            let label = trimmed_back(trimmed_front(s));
            &&& label.len() > 0 ==> label[0] != '-' && label[0] != ' ' && label.last() != '-'
                && label.last() != ' '
            &&& exists|from: int, to: int|
                0 <= from <= to <= s.len() && #[trigger] s.subrange(from, to) == label && (forall|
                    i: int,
                |
                    0 <= i < from ==> #[trigger] s[i] == '-' || s[i] == ' ') && (forall|i: int|
                    to <= i < s.len() ==> #[trigger] s[i] == '-' || s[i] == ' ')
        }),
{
    let front = trimmed_front(s);
    let label = trimmed_back(front);
    lemma_front_cut(s);
    lemma_back_cut(front);
    let from = s.len() - front.len();
    let to = from + label.len();
    assert(s.subrange(from, to) =~= label);
    assert forall|i: int| 0 <= i < from implies #[trigger] s[i] == '-' || s[i] == ' ' by {
        assert(is_edge(s[i]));
    }
    assert forall|i: int| to <= i < s.len() implies #[trigger] s[i] == '-' || s[i] == ' ' by {
        assert(front[i - from] == s[i]);
        assert(is_edge(front[i - from]));
    }
    if label.len() > 0 {
        assert(label[0] == front[0]);
        assert(!is_edge(front[0]));
        assert(!is_edge(label.last()));
    }
}

/// A port behind the last hyphen is left out, whatever stands in front of it; what is
/// no number is no port.
pub proof fn law_labels_lose_their_port(host: Seq<char>, digits: Seq<char>)
    requires
        host.len() > 0,
        forall|i: int| 0 <= i < digits.len() ==> #[trigger] digits[i] != '-',
    ensures
        (forall|i: int| 0 <= i < digits.len() ==> '0' <= #[trigger] digits[i] <= '9')
            ==> without_port(host.push('-') + digits) == host,
        (exists|i: int| 0 <= i < digits.len() && !('0' <= #[trigger] digits[i] <= '9'))
            ==> without_port(host.push('-') + digits) == host.push('-') + digits,
        !host.contains('-') ==> without_port(host) == host,
{
    let s = host.push('-') + digits;
    text::law_last_place(s, '-');
    let hyphen = text::last_index(s, '-');
    assert(s[host.len() as int] == '-');
    assert forall|i: int| host.len() < i < s.len() implies s[i] == digits[i - host.len() - 1] by {}
    if hyphen > host.len() {
        assert(s[hyphen] == digits[hyphen - host.len() - 1]);
    }
    assert(hyphen == host.len());
    assert(s.take(hyphen) =~= host);
    if exists|i: int| 0 <= i < digits.len() && !('0' <= #[trigger] digits[i] <= '9') {
        let i = choose|i: int| 0 <= i < digits.len() && !('0' <= #[trigger] digits[i] <= '9');
        assert(s[hyphen + 1 + i] == digits[i]);
        assert(!text::is_digit(s[hyphen + 1 + i]));
    } else {
        assert forall|i: int| hyphen < i < s.len() implies text::is_digit(#[trigger] s[i]) by {
            assert('0' <= digits[i - host.len() - 1] <= '9');
        }
    }
    text::law_last_place(host, '-');
}

proof fn lemma_within_is_longest(s: Seq<char>, limit: nat)
    ensures
        within_bytes(s, limit).len() <= s.len(),
        within_bytes(s, limit) == s.take(within_bytes(s, limit).len() as int),
        byte_len(within_bytes(s, limit)) <= limit,
        within_bytes(s, limit).len() < s.len() ==> byte_len(
            s.take(within_bytes(s, limit).len() as int + 1),
        ) > limit,
    decreases s.len(),
{
    if byte_len(s) <= limit {
        assert(s.take(s.len() as int) =~= s);
    } else {
        let front = s.drop_last();
        lemma_within_is_longest(front, limit);
        let n = within_bytes(s, limit).len() as int;
        assert(front.take(n) =~= s.take(n));
        if n < front.len() {
            assert(front.take(n + 1) =~= s.take(n + 1));
        } else {
            assert(s.take(n + 1) =~= s);
        }
    }
}

/// A label is cut at the end, to the longest beginning of at most 48 bytes; a shorter
/// one stays whole, and nothing becomes the stand-in but an empty one.
pub proof fn law_labels_are_cut_at_the_end(safe: Seq<char>)
    ensures
        ({
            let whole = without_port(trimmed_back(trimmed_front(safe)));
            let label = label_of(safe);
            &&& byte_len(whole) <= 48 && whole.len() > 0 ==> label == whole
            &&& whole.len() == 0 ==> label == "ard"@
            &&& whole.len() > 0 ==> label == "ard"@ || (label.is_prefix_of(whole) && byte_len(label)
                <= 48 && (label.len() < whole.len() ==> byte_len(whole.take(label.len() as int + 1))
                > 48))
        }),
{
    let whole = without_port(trimmed_back(trimmed_front(safe)));
    lemma_within_is_longest(whole, 48);
    let cut = within_bytes(whole, 48);
    assert(cut == whole.subrange(0, cut.len() as int));
}

/// The label of an endpoint with a port is its host, as long as that is short enough
/// and made of letters, numbers and dots.
pub proof fn law_endpoints_are_labelled_by_their_host(host: Seq<char>, digits: Seq<char>)
    requires
        host.len() > 0,
        byte_len(host) <= 48,
        forall|i: int|
            0 <= i < host.len() ==> (unicode_alphanumeric(#[trigger] host[i]) || host[i] == '.')
                && host[i] != '-' && host[i] != ' ',
        digits.len() > 0,
        forall|i: int|
            0 <= i < digits.len() ==> unicode_alphanumeric(#[trigger] digits[i]) && '0' <= digits[i]
                <= '9',
        !unicode_alphanumeric(':'),
    ensures
        label_for(host.push(':') + digits) == host,
{
    let endpoint = host.push(':') + digits;
    let safe = endpoint.map_values(|c: char| safe_char(c));
    let expected = host.push('-') + digits;
    assert forall|i: int| 0 <= i < safe.len() implies safe[i] == expected[i] by {
        if i < host.len() {
            assert(endpoint[i] == host[i]);
        } else if i > host.len() {
            assert(endpoint[i] == digits[i - host.len() - 1]);
        }
    }
    assert(safe =~= expected);
    assert(!is_edge(safe[0])) by {
        assert(safe[0] == host[0]);
    }
    assert(!is_edge(safe.last())) by {
        assert(safe.last() == digits.last());
    }
    assert(trimmed_front(safe) == safe);
    assert(trimmed_back(safe) == safe);
    law_labels_lose_their_port(host, digits);
    law_labels_are_cut_at_the_end(safe);
}

/// The name of a file: its label, the number of the take, and for every segment but the
/// first the number of the segment.
pub proof fn law_file_names(label: Seq<char>, index: nat, segment: nat)
    ensures
        segment <= 1 ==> file_name(label, index, segment) == label + seq![' '] + text::decimal(index)
            + seq!['.', 'm', 'p', '4'],
        segment > 1 ==> file_name(label, index, segment) == label + seq![' '] + text::decimal(index)
            + seq!['-'] + text::decimal(segment) + seq!['.', 'm', 'p', '4'],
{
    reveal_strlit(" ");
    reveal_strlit("-");
    reveal_strlit(".mp4");
    assert(" "@ =~= seq![' ']);
    assert("-"@ =~= seq!['-']);
    assert(".mp4"@ =~= seq!['.', 'm', 'p', '4']);
}

/// Characters that may stand in a file name stay, and a hyphen stands for every other.
pub proof fn law_unsafe_characters_become_hyphens(c: char)
    ensures
        unicode_alphanumeric(c) || c == '.' || c == '-' || c == '_' || c == ' ' ==> safe_char(c)
            == c,
        !(unicode_alphanumeric(c) || c == '.' || c == '-' || c == '_' || c == ' ') ==> safe_char(c)
            == '-',
{
}

} // verus!
