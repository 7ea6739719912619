//! Character-level text functions, specified over `Seq<char>`.

use vstd::prelude::*;

verus! {

/// `String::push` appends one character.
pub assume_specification[ String::push ](s: &mut String, c: char)
    ensures
        final(s)@ == old(s)@.push(c),
;

/// The characters of `s`, one by one.
pub fn chars_of(s: &str) -> (chars: Vec<char>)
    ensures
        chars@ == s@,
{
    let mut chars: Vec<char> = Vec::new();
    for c in it: s.chars()
        invariant
            chars@ == s@.take(it.index() as int),
            it.seq() == s@,
    {
        chars.push(c);
        assert(chars@ =~= s@.take(it.index() as int + 1));
    }
    assert(s@.take(s@.len() as int) =~= s@);
    chars
}

/// A string made of the given characters.
pub fn string_from(chars: &[char]) -> (s: String)
    ensures
        s@ == chars@,
{
    let mut s = String::new();
    for i in 0..chars.len()
        invariant
            s@ == chars@.take(i as int),
    {
        s.push(chars[i]);
        assert(s@ =~= chars@.take(i as int + 1));
    }
    assert(chars@.take(chars@.len() as int) =~= chars@);
    s
}

/// Whether two texts hold the same characters.
pub fn same_text(left: &str, right: &str) -> (same: bool)
    ensures
        same == (left@ == right@),
{
    let a = chars_of(left);
    let b = chars_of(right);
    if a.len() != b.len() {
        return false;
    }
    for i in 0..a.len()
        invariant
            a@ == left@,
            b@ == right@,
            a@.len() == b@.len(),
            left@.take(i as int) == right@.take(i as int),
    {
        if a[i] != b[i] {
            assert(left@[i as int] != right@[i as int]);
            return false;
        }
        assert(left@.take(i as int + 1) =~= left@.take(i as int).push(left@[i as int]));
        assert(right@.take(i as int + 1) =~= right@.take(i as int).push(right@[i as int]));
    }
    assert(left@.take(left@.len() as int) =~= left@);
    assert(right@.take(right@.len() as int) =~= right@);
    true
}

/// Whether `chars` are the characters of `s`.
pub fn chars_match(chars: &Vec<char>, s: &str) -> (same: bool)
    ensures
        same == (chars@ == s@),
{
    let mut i: usize = 0;
    for c in it: s.chars()
        invariant
            it.seq() == s@,
            i == it.index(),
            i <= chars@.len(),
            chars@.take(i as int) == s@.take(i as int),
    {
        if i >= chars.len() || chars[i] != c {
            assert(s@[i as int] == c);
            return false;
        }
        assert(chars@.take(i as int + 1) =~= chars@.take(i as int).push(chars@[i as int]));
        assert(s@.take(i as int + 1) =~= s@.take(i as int).push(c));
        i += 1;
    }
    assert(s@.take(s@.len() as int) =~= s@);
    if i == chars.len() {
        assert(chars@.take(i as int) =~= chars@);
        true
    } else {
        assert(chars@.len() != s@.len());
        false
    }
}

/// The characters with the Unicode property `White_Space`.
pub open spec fn is_space(c: char) -> bool {
    let u = c as u32;
    ||| 0x09 <= u <= 0x0d
    ||| u == 0x20
    ||| u == 0x85
    ||| u == 0xa0
    ||| u == 0x1680
    ||| 0x2000 <= u <= 0x200a
    ||| u == 0x2028
    ||| u == 0x2029
    ||| u == 0x202f
    ||| u == 0x205f
    ||| u == 0x3000
}

/// Whether `c` is white space.
pub fn is_whitespace(c: char) -> (space: bool)
    ensures
        space == is_space(c),
{
    let u: u32 = c as u32;
    (0x09 <= u && u <= 0x0d) || u == 0x20 || u == 0x85 || u == 0xa0 || u == 0x1680 || (0x2000 <= u
        && u <= 0x200a) || u == 0x2028 || u == 0x2029 || u == 0x202f || u == 0x205f || u == 0x3000
}

/// `s` without the white space in front.
pub open spec fn trimmed_start(s: Seq<char>) -> Seq<char>
    decreases s.len(),
{
    if s.len() > 0 && is_space(s[0]) {
        trimmed_start(s.drop_first())
    } else {
        s
    }
}

/// `s` without the white space behind.
pub open spec fn trimmed_end(s: Seq<char>) -> Seq<char>
    decreases s.len(),
{
    if s.len() > 0 && is_space(s.last()) {
        trimmed_end(s.drop_last())
    } else {
        s
    }
}

/// `s` without the white space on either side.
pub open spec fn trimmed(s: Seq<char>) -> Seq<char> {
    trimmed_end(trimmed_start(s))
}

/// `s` without the white space on either side.
pub fn trim(s: &str) -> (text: String)
    ensures
        text@ == trimmed(s@),
{
    let chars = chars_of(s);
    let mut start: usize = 0;
    assert(chars@.skip(0) =~= s@);
    while start < chars.len() && is_whitespace(chars[start])
        invariant
            start <= chars@.len(),
            trimmed_start(chars@.skip(start as int)) == trimmed_start(s@),
        decreases chars@.len() - start,
    {
        assert(chars@.skip(start as int).drop_first() =~= chars@.skip(start as int + 1));
        start += 1;
    }
    let mut end: usize = chars.len();
    let ghost front = trimmed_start(s@);
    assert(front == chars@.skip(start as int));
    assert(chars@.subrange(start as int, end as int) =~= front);
    while start < end && is_whitespace(chars[end - 1])
        invariant
            start <= end <= chars@.len(),
            trimmed_end(chars@.subrange(start as int, end as int)) == trimmed_end(front),
        decreases end,
    {
        assert(chars@.subrange(start as int, end as int).drop_last() =~= chars@.subrange(
            start as int,
            end as int - 1,
        ));
        end -= 1;
    }
    string_from(slice_of(&chars, start, end))
}

/// The characters from `start` up to `end`.
pub fn slice_of(chars: &Vec<char>, start: usize, end: usize) -> (part: &[char])
    requires
        start <= end <= chars@.len(),
    ensures
        part@ == chars@.subrange(start as int, end as int),
{
    vstd::slice::slice_subrange(chars.as_slice(), start, end)
}

/// Whether `c` is an ASCII digit.
pub open spec fn is_digit(c: char) -> bool {
    '0' <= c <= '9'
}

/// The number that the digits of `s` write, most significant first.
pub open spec fn digits_value(s: Seq<char>) -> nat
    decreases s.len(),
{
    if s.len() == 0 {
        0
    } else {
        10 * digits_value(s.drop_last()) + (s.last() as nat - '0' as nat) as nat
    }
}

/// The digits behind an optional plus sign.
pub open spec fn unsigned_digits(s: Seq<char>) -> Seq<char> {
    if s.len() > 0 && s[0] == '+' {
        s.drop_first()
    } else {
        s
    }
}

/// The unsigned number that `s` writes: at least one ASCII digit, with an
/// optional plus sign in front, and a value of at most `max`.
pub open spec fn parsed_unsigned(s: Seq<char>, max: nat) -> Option<nat> {
    let digits = unsigned_digits(s);
    if digits.len() > 0 && (forall|i: int| 0 <= i < digits.len() ==> is_digit(#[trigger] digits[i]))
        && digits_value(digits) <= max {
        Some(digits_value(digits))
    } else {
        None
    }
}

proof fn lemma_value_grows(s: Seq<char>, i: int)
    requires
        0 <= i <= s.len(),
    ensures
        digits_value(s.take(i)) <= digits_value(s),
    decreases s.len() - i,
{
    if i < s.len() {
        lemma_value_grows(s, i + 1);
        assert(s.take(i + 1).drop_last() =~= s.take(i));
    } else {
        assert(s.take(i) =~= s);
    }
}

/// The unsigned number that `s` writes, if it is at most `max`.
pub fn parse_unsigned(s: &str, max: u64) -> (number: Option<u64>)
    ensures
        number is Some <==> parsed_unsigned(s@, max as nat) is Some,
        number matches Some(n) ==> parsed_unsigned(s@, max as nat) == Some(n as nat),
{
    let chars = chars_of(s);
    let start: usize = if chars.len() > 0 && chars[0] == '+' { 1 } else { 0 };
    let ghost digits = unsigned_digits(s@);
    assert(digits =~= chars@.skip(start as int));
    if start >= chars.len() {
        return None;
    }
    let mut value: u64 = 0;
    let mut i: usize = start;
    while i < chars.len()
        invariant
            start <= i <= chars@.len(),
            digits == chars@.skip(start as int),
            value == digits_value(digits.take(i - start)),
            value <= max,
            forall|k: int| 0 <= k < i - start ==> is_digit(#[trigger] digits[k]),
            digits == unsigned_digits(s@),
        decreases chars@.len() - i,
    {
        let c = chars[i];
        assert(c == digits[i - start]);
        if c < '0' || c > '9' {
            return None;
        }
        let digit: u64 = (c as u32 - '0' as u32) as u64;
        assert(digits.take(i - start + 1).drop_last() =~= digits.take(i - start));
        proof {
            lemma_value_grows(digits, i - start + 1);
        }
        if value > max / 10 || digit > max - value * 10 {
            return None;
        }
        value = value * 10 + digit;
        i += 1;
    }
    assert(digits.take(i - start) =~= digits);
    Some(value)
}

/// The character of one decimal digit.
pub open spec fn digit_char(d: nat) -> char {
    ('0' as u32 + d) as char
}

/// The decimal notation of `n`, without leading zeros.
pub open spec fn decimal(n: nat) -> Seq<char>
    decreases n,
{
    if n < 10 {
        seq![digit_char(n)]
    } else {
        decimal(n / 10).push(digit_char(n % 10))
    }
}

fn digit_to_char(d: u64) -> (c: char)
    requires
        d < 10,
    ensures
        c == digit_char(d as nat),
{
    if d == 0 {
        '0'
    } else if d == 1 {
        '1'
    } else if d == 2 {
        '2'
    } else if d == 3 {
        '3'
    } else if d == 4 {
        '4'
    } else if d == 5 {
        '5'
    } else if d == 6 {
        '6'
    } else if d == 7 {
        '7'
    } else if d == 8 {
        '8'
    } else {
        '9'
    }
}

/// Appends the decimal notation of `n`.
pub fn push_decimal(s: &mut String, n: u64)
    ensures
        final(s)@ == old(s)@ + decimal(n as nat),
    decreases n,
{
    if n >= 10 {
        push_decimal(s, n / 10);
    }
    s.push(digit_to_char(n % 10));
    assert(s@ =~= old(s)@ + decimal(n as nat));
}

/// The decimal notation of `n`.
pub fn decimal_of(n: u64) -> (s: String)
    ensures
        s@ == decimal(n as nat),
{
    let mut s = String::new();
    push_decimal(&mut s, n);
    assert(s@ =~= decimal(n as nat));
    s
}

/// The decimal notation of `n`, with a minus sign in front of a negative number.
pub open spec fn signed_decimal(n: int) -> Seq<char> {
    if n < 0 {
        "-"@ + decimal((-n) as nat)
    } else {
        decimal(n as nat)
    }
}

/// Appends the decimal notation of `n`.
pub fn push_signed(s: &mut String, n: i32)
    ensures
        final(s)@ == old(s)@ + signed_decimal(n as int),
{
    let wide: i64 = n as i64;
    if wide < 0 {
        s.append("-");
        push_decimal(s, (0 - wide) as u64);
        assert(s@ =~= old(s)@ + signed_decimal(n as int));
    } else {
        push_decimal(s, wide as u64);
    }
}

/// The character of one hexadecimal digit.
pub open spec fn hex_char(d: nat) -> char {
    if d < 10 {
        ('0' as u32 + d) as char
    } else {
        ('a' as u32 + (d - 10)) as char
    }
}

/// The hexadecimal notation of `n`, in lower case and without leading zeros.
pub open spec fn hexadecimal(n: nat) -> Seq<char>
    decreases n,
{
    if n < 16 {
        seq![hex_char(n)]
    } else {
        hexadecimal(n / 16).push(hex_char(n % 16))
    }
}

/// Appends the hexadecimal notation of `n`.
pub fn push_hex(s: &mut String, n: u64)
    ensures
        final(s)@ == old(s)@ + hexadecimal(n as nat),
    decreases n,
{
    if n >= 16 {
        push_hex(s, n / 16);
    }
    let digit: u64 = n % 16;
    if digit < 10 {
        s.push(digit_to_char(digit));
    } else if digit == 10 {
        s.push('a');
    } else if digit == 11 {
        s.push('b');
    } else if digit == 12 {
        s.push('c');
    } else if digit == 13 {
        s.push('d');
    } else if digit == 14 {
        s.push('e');
    } else {
        s.push('f');
    }
    assert(s@ =~= old(s)@ + hexadecimal(n as nat));
}

/// `n` zeros.
pub open spec fn zero_digits(n: nat) -> Seq<char> {
    Seq::new(n, |i: int| '0')
}

/// The hexadecimal notation of `n` with at least `width` digits.
pub open spec fn padded_hexadecimal(n: nat, width: nat) -> Seq<char> {
    let digits = hexadecimal(n);
    if digits.len() < width {
        zero_digits((width - digits.len()) as nat) + digits
    } else {
        digits
    }
}

/// Appends the hexadecimal notation of `n` with at least `width` digits.
pub fn push_padded_hex(s: &mut String, n: u64, width: usize)
    ensures
        final(s)@ == old(s)@ + padded_hexadecimal(n as nat, width as nat),
{
    let mut digits = String::new();
    push_hex(&mut digits, n);
    assert(digits@ =~= hexadecimal(n as nat));
    let count: usize = digits.as_str().unicode_len();
    let ghost before = s@;
    let mut i: usize = count;
    assert(zero_digits(0) =~= Seq::<char>::empty());
    while i < width
        invariant
            count <= i,
            i <= width || i == count,
            s@ == before + zero_digits((i - count) as nat),
        decreases width - i,
    {
        s.push('0');
        assert(s@ =~= before + zero_digits((i - count + 1) as nat));
        i += 1;
    }
    s.append(digits.as_str());
    assert(s@ =~= before + padded_hexadecimal(n as nat, width as nat));
}

/// Reading back a number in decimal notation gives the number.
pub proof fn lemma_decimal_parses(n: nat, max: nat)
    requires
        n <= max,
    ensures
        parsed_unsigned(decimal(n), max) == Some(n),
{
    lemma_decimal_digits(n);
    let s = decimal(n);
    assert(is_digit(s[0]));
    assert(unsigned_digits(s) == s);
}

/// The decimal notation is made of ASCII digits, at least one of them.
pub proof fn lemma_decimal_digits(n: nat)
    ensures
        decimal(n).len() > 0,
        forall|i: int| 0 <= i < decimal(n).len() ==> is_digit(#[trigger] decimal(n)[i]),
        digits_value(decimal(n)) == n,
    decreases n,
{
    if n >= 10 {
        lemma_decimal_digits(n / 10);
        let s = decimal(n);
        assert(s.drop_last() =~= decimal(n / 10));
        assert(s.last() == digit_char(n % 10));
    } else {
        let s = decimal(n);
        assert(s.drop_last() =~= Seq::<char>::empty());
        reveal_with_fuel(digits_value, 2);
    }
}

/// `c` in lower case, if it is an ASCII letter.
pub open spec fn lower_char(c: char) -> char {
    if 'A' <= c <= 'Z' {
        (c as u32 + 32) as char
    } else {
        c
    }
}

/// `s` with its ASCII letters in lower case.
pub open spec fn lowered(s: Seq<char>) -> Seq<char> {
    s.map_values(|c: char| lower_char(c))
}

fn ascii_lower(c: char) -> (l: char)
    ensures
        l == lower_char(c),
{
    if 'A' <= c && c <= 'Z' {
        let byte: u8 = c as u8;
        (byte + 32) as char
    } else {
        c
    }
}

/// `s` with its ASCII letters in lower case.
pub fn to_lower(s: &str) -> (text: String)
    ensures
        text@ == lowered(s@),
{
    let chars = chars_of(s);
    let mut text = String::new();
    for i in 0..chars.len()
        invariant
            chars@ == s@,
            text@ == lowered(s@.take(i as int)),
    {
        text.push(ascii_lower(chars[i]));
        assert(text@ =~= lowered(s@.take(i as int + 1)));
    }
    assert(s@.take(s@.len() as int) =~= s@);
    text
}

/// Whether two texts differ at most in the case of ASCII letters.
pub fn same_ignoring_case(left: &str, right: &str) -> (same: bool)
    ensures
        same == (lowered(left@) == lowered(right@)),
{
    let a = to_lower(left);
    let b = to_lower(right);
    same_text(a.as_str(), b.as_str())
}

/// The index of the last `c` in `s`, or -1 if there is none.
pub open spec fn last_index(s: Seq<char>, c: char) -> int
    decreases s.len(),
{
    if s.len() == 0 {
        -1
    } else if s.last() == c {
        s.len() - 1
    } else {
        last_index(s.drop_last(), c)
    }
}

/// The index of the last place in `s` where `a` is followed by `b`, or -1.
pub open spec fn last_pair(s: Seq<char>, a: char, b: char) -> int
    decreases s.len(),
{
    if s.len() < 2 {
        -1
    } else if s[s.len() - 2] == a && s.last() == b {
        s.len() - 2
    } else {
        last_pair(s.drop_last(), a, b)
    }
}

/// The index of the last `c` among `chars`.
pub fn find_last(chars: &[char], c: char) -> (index: Option<usize>)
    ensures
        index is None <==> last_index(chars@, c) < 0,
        index matches Some(i) ==> i == last_index(chars@, c) && i < chars@.len() && chars@[i as int]
            == c,
{
    let mut end: usize = chars.len();
    assert(chars@.take(end as int) =~= chars@);
    while end > 0
        invariant
            end <= chars@.len(),
            last_index(chars@.take(end as int), c) == last_index(chars@, c),
        decreases end,
    {
        if chars[end - 1] == c {
            return Some(end - 1);
        }
        assert(chars@.take(end as int).drop_last() =~= chars@.take(end as int - 1));
        end -= 1;
    }
    None
}

/// The index of the last place where `a` is followed by `b`.
pub fn find_last_pair(chars: &[char], a: char, b: char) -> (index: Option<usize>)
    ensures
        index is None <==> last_pair(chars@, a, b) < 0,
        index matches Some(i) ==> i == last_pair(chars@, a, b) && i + 2 <= chars@.len(),
{
    let mut end: usize = chars.len();
    assert(chars@.take(end as int) =~= chars@);
    while end > 1
        invariant
            end <= chars@.len(),
            last_pair(chars@.take(end as int), a, b) == last_pair(chars@, a, b),
        decreases end,
    {
        if chars[end - 2] == a && chars[end - 1] == b {
            return Some(end - 2);
        }
        assert(chars@.take(end as int).drop_last() =~= chars@.take(end as int - 1));
        end -= 1;
    }
    None
}

/// How often `c` occurs in `s`.
pub open spec fn occurrences(s: Seq<char>, c: char) -> nat
    decreases s.len(),
{
    if s.len() == 0 {
        0
    } else {
        occurrences(s.drop_last(), c) + if s.last() == c {
            1nat
        } else {
            0nat
        }
    }
}

/// How often `c` occurs among `chars`.
pub fn count_char(chars: &[char], c: char) -> (count: usize)
    ensures
        count == occurrences(chars@, c),
        count == 0 <==> !chars@.contains(c),
{
    let mut count: usize = 0;
    for i in 0..chars.len()
        invariant
            count == occurrences(chars@.take(i as int), c),
            count <= i,
            count == 0 <==> !chars@.take(i as int).contains(c),
    {
        let ghost next = chars@.take(i as int + 1);
        assert(next.drop_last() =~= chars@.take(i as int));
        assert(next =~= chars@.take(i as int).push(chars@[i as int]));
        if chars[i] == c {
            count += 1;
            assert(next[i as int] == c);
        } else {
            assert(next.contains(c) ==> chars@.take(i as int).contains(c)) by {
                if next.contains(c) {
                    let k = choose|k: int| 0 <= k < next.len() && next[k] == c;
                    assert(chars@.take(i as int)[k] == c);
                }
            }
            assert(chars@.take(i as int).contains(c) ==> next.contains(c)) by {
                if chars@.take(i as int).contains(c) {
                    let k = choose|k: int|
                        0 <= k < chars@.take(i as int).len() && chars@.take(i as int)[k] == c;
                    assert(next[k] == c);
                }
            }
        }
    }
    assert(chars@.take(chars@.len() as int) =~= chars@);
    count
}

/// Whether `s` begins with `prefix`.
pub fn starts_with(s: &str, prefix: &str) -> (begins: bool)
    ensures
        begins == prefix@.is_prefix_of(s@),
{
    let chars = chars_of(s);
    let front = chars_of(prefix);
    if front.len() > chars.len() {
        return false;
    }
    for i in 0..front.len()
        invariant
            chars@ == s@,
            front@ == prefix@,
            front@.len() <= chars@.len(),
            forall|k: int| 0 <= k < i ==> chars@[k] == front@[k],
    {
        if chars[i] != front[i] {
            assert(s@.subrange(0, prefix@.len() as int)[i as int] != prefix@[i as int]);
            return false;
        }
    }
    assert(prefix@ =~= s@.subrange(0, prefix@.len() as int));
    true
}

/// `s` without the copies of `suffix` at its end.
pub open spec fn without_suffixes(s: Seq<char>, suffix: Seq<char>) -> Seq<char>
    decreases s.len(),
{
    if 0 < suffix.len() <= s.len() && suffix == s.skip(s.len() - suffix.len()) {
        without_suffixes(s.take(s.len() - suffix.len()), suffix)
    } else {
        s
    }
}

fn ends_at(chars: &Vec<char>, end: usize, suffix: &Vec<char>) -> (ends: bool)
    requires
        end <= chars@.len(),
    ensures
        ends == (suffix@.len() <= end && suffix@ == chars@.take(end as int).skip(
            end - suffix@.len(),
        )),
{
    if suffix.len() > end {
        return false;
    }
    let start: usize = end - suffix.len();
    let ghost tail = chars@.take(end as int).skip(start as int);
    for i in 0..suffix.len()
        invariant
            suffix@.len() <= end <= chars@.len(),
            start == end - suffix@.len(),
            tail == chars@.take(end as int).skip(start as int),
            forall|k: int| 0 <= k < i ==> tail[k] == suffix@[k],
    {
        if chars[start + i] != suffix[i] {
            assert(tail[i as int] != suffix@[i as int]);
            return false;
        }
    }
    assert(tail =~= suffix@);
    true
}

/// `s` without the copies of `suffix` at its end.
pub fn trim_suffixes(s: &str, suffix: &str) -> (text: String)
    ensures
        text@ == without_suffixes(s@, suffix@),
{
    let chars = chars_of(s);
    let tail = chars_of(suffix);
    let mut end: usize = chars.len();
    assert(chars@.take(end as int) =~= s@);
    while tail.len() > 0 && ends_at(&chars, end, &tail)
        invariant
            end <= chars@.len(),
            tail@ == suffix@,
            without_suffixes(chars@.take(end as int), suffix@) == without_suffixes(s@, suffix@),
        decreases end,
    {
        assert(chars@.take(end as int).take(end - tail@.len()) =~= chars@.take(
            end - tail@.len(),
        ));
        end -= tail.len();
    }
    assert(chars@.subrange(0, end as int) =~= chars@.take(end as int));
    string_from(slice_of(&chars, 0, end))
}

/// The ASCII digits of `s`, in order.
pub open spec fn only_digits(s: Seq<char>) -> Seq<char> {
    s.filter(|c: char| is_digit(c))
}

/// The first `limit` characters of `s`, or all if there are fewer.
pub open spec fn at_most(s: Seq<char>, limit: nat) -> Seq<char> {
    if s.len() <= limit {
        s
    } else {
        s.take(limit as int)
    }
}

/// The first `limit` ASCII digits of `s`.
pub fn leading_digits(s: &str, limit: usize) -> (digits: String)
    ensures
        digits@ == at_most(only_digits(s@), limit as nat),
{
    let chars = chars_of(s);
    let mut found: Vec<char> = Vec::new();
    for i in 0..chars.len()
        invariant
            chars@ == s@,
            found@ == only_digits(s@.take(i as int)),
    {
        reveal(Seq::filter);
        assert(s@.take(i as int + 1).drop_last() =~= s@.take(i as int));
        let c = chars[i];
        if '0' <= c && c <= '9' {
            found.push(c);
        }
    }
    assert(s@.take(s@.len() as int) =~= s@);
    let end: usize = if found.len() <= limit { found.len() } else { limit };
    assert(found@.subrange(0, end as int) =~= at_most(found@, limit as nat));
    string_from(slice_of(&found, 0, end))
}

/// The last `limit` characters of `s`, or all if there are fewer.
pub open spec fn last_chars(s: Seq<char>, limit: nat) -> Seq<char> {
    if s.len() <= limit {
        s
    } else {
        s.skip(s.len() - limit)
    }
}

/// The last `limit` characters of `s`.
pub fn tail_of(s: &str, limit: usize) -> (text: String)
    ensures
        text@ == last_chars(s@, limit as nat),
{
    let chars = chars_of(s);
    let start: usize = if chars.len() <= limit { 0 } else { chars.len() - limit };
    assert(chars@.subrange(start as int, chars@.len() as int) =~= last_chars(s@, limit as nat));
    string_from(slice_of(&chars, start, chars.len()))
}

/// The text `left` followed by the text `right`.
pub fn joined(left: &str, right: &str) -> (text: String)
    ensures
        text@ == left@ + right@,
{
    let mut text = left.to_owned();
    text.append(right);
    text
}

proof fn lemma_trimmed_start(s: Seq<char>)
    ensures
        trimmed_start(s).len() > 0 ==> !is_space(trimmed_start(s)[0]),
    decreases s.len(),
{
    if s.len() > 0 && is_space(s[0]) {
        lemma_trimmed_start(s.drop_first());
    }
}

proof fn lemma_trimmed_end(s: Seq<char>)
    ensures
        trimmed_end(s).len() <= s.len(),
        trimmed_end(s) == s.take(trimmed_end(s).len() as int),
        trimmed_end(s).len() > 0 ==> !is_space(trimmed_end(s).last()),
    decreases s.len(),
{
    if s.len() > 0 && is_space(s.last()) {
        lemma_trimmed_end(s.drop_last());
        let len = trimmed_end(s).len() as int;
        assert(s.drop_last().take(len) =~= s.take(len));
    } else {
        assert(s.take(s.len() as int) =~= s);
    }
}

/// Nothing is left to trim after trimming.
pub proof fn lemma_trimmed_twice(s: Seq<char>)
    ensures
        trimmed(trimmed(s)) == trimmed(s),
{
    let start = trimmed_start(s);
    lemma_trimmed_start(s);
    lemma_trimmed_end(start);
    let t = trimmed(s);
    if t.len() > 0 {
        assert(t[0] == start[0]);
    }
    assert(trimmed_start(t) == t);
    assert(trimmed_end(t) == t);
}

proof fn lemma_lowered_start(s: Seq<char>)
    ensures
        trimmed_start(lowered(s)) == lowered(trimmed_start(s)),
    decreases s.len(),
{
    if s.len() > 0 {
        assert(is_space(lower_char(s[0])) == is_space(s[0]));
        if is_space(s[0]) {
            assert(lowered(s).drop_first() =~= lowered(s.drop_first()));
            lemma_lowered_start(s.drop_first());
        }
    }
}

proof fn lemma_lowered_end(s: Seq<char>)
    ensures
        trimmed_end(lowered(s)) == lowered(trimmed_end(s)),
    decreases s.len(),
{
    if s.len() > 0 {
        assert(is_space(lower_char(s.last())) == is_space(s.last()));
        if is_space(s.last()) {
            assert(lowered(s).drop_last() =~= lowered(s.drop_last()));
            lemma_lowered_end(s.drop_last());
        }
    }
}

/// Neither trimming nor lowering changes what was trimmed and lowered.
pub proof fn lemma_trimmed_lowered(s: Seq<char>)
    ensures
        lowered(trimmed(lowered(trimmed(s)))) == lowered(trimmed(s)),
{
    let t = trimmed(s);
    lemma_trimmed_twice(s);
    lemma_lowered_start(t);
    lemma_lowered_end(trimmed_start(t));
    assert(trimmed(lowered(t)) == lowered(t));
    assert(lowered(lowered(t)) =~= lowered(t));
}

proof fn lemma_start_is_suffix(s: Seq<char>)
    ensures
        trimmed_start(s).len() <= s.len(),
        trimmed_start(s) == s.skip(s.len() - trimmed_start(s).len()),
        forall|i: int| 0 <= i < s.len() - trimmed_start(s).len() ==> is_space(#[trigger] s[i]),
    decreases s.len(),
{
    if s.len() > 0 && is_space(s[0]) {
        let rest = s.drop_first();
        lemma_start_is_suffix(rest);
        let n = s.len() - trimmed_start(s).len();
        assert(rest.skip(n - 1) =~= s.skip(n));
        assert forall|i: int| 0 <= i < n implies is_space(#[trigger] s[i]) by {
            if i > 0 {
                assert(rest[i - 1] == s[i]);
            }
        }
    } else {
        assert(s.skip(0) =~= s);
    }
}

proof fn lemma_end_spaces(s: Seq<char>)
    ensures
        trimmed_end(s).len() <= s.len(),
        forall|i: int| trimmed_end(s).len() <= i < s.len() ==> is_space(#[trigger] s[i]),
    decreases s.len(),
{
    if s.len() > 0 && is_space(s.last()) {
        lemma_end_spaces(s.drop_last());
        assert forall|i: int| trimmed_end(s).len() <= i < s.len() implies is_space(
            #[trigger] s[i],
        ) by {
            if i < s.len() - 1 {
                assert(s.drop_last()[i] == s[i]);
            }
        }
    }
}

/// Trimming takes white space off both ends and nothing else: what is left stands in
/// the text as it is, there is only white space around it, and neither of its ends is
/// white space.
pub proof fn law_trimming_takes_the_ends(s: Seq<char>)
    ensures
        exists|from: int, to: int|
            0 <= from <= to <= s.len() && #[trigger] s.subrange(from, to) == trimmed(s) && (forall|
                i: int,
            | 0 <= i < from ==> is_space(#[trigger] s[i])) && (forall|i: int|
                to <= i < s.len() ==> is_space(#[trigger] s[i])),
        trimmed(s).len() > 0 ==> !is_space(trimmed(s)[0]) && !is_space(trimmed(s).last()),
{
    let start = trimmed_start(s);
    lemma_start_is_suffix(s);
    lemma_trimmed_start(s);
    lemma_trimmed_end(start);
    lemma_end_spaces(start);
    let from = s.len() - start.len();
    let to = from + trimmed(s).len();
    assert(s.subrange(from, to) =~= trimmed(s));
    assert forall|i: int| to <= i < s.len() implies is_space(#[trigger] s[i]) by {
        assert(start[i - from] == s[i]);
    }
    if trimmed(s).len() > 0 {
        assert(trimmed(s)[0] == start[0]);
    }
}

/// Blanks, tabs and line ends are white space; no other ASCII character is, and no
/// letter of any script is.
pub proof fn law_white_space(c: char)
    ensures
        (c as u32) < 0x80 ==> (is_space(c) <==> c == ' ' || c == '\t' || c == '\n' || c == '\r' || c
            as u32 == 0x0b || c as u32 == 0x0c),
        c as u32 == 0x3000 || c as u32 == 0xa0 ==> is_space(c),
        is_space(c) ==> (c as u32) < 0x1680 || c as u32 == 0x1680 || 0x2000 <= c as u32 <= 0x205f
            || c as u32 == 0x3000,
{
}

/// Reading a number in decimal: each digit further to the right counts a tenth of the
/// one before it, at least one digit is there, nothing but digits and one plus sign in
/// front of them, and the number is not larger than what is asked for.
pub proof fn law_numbers_are_read_in_decimal(s: Seq<char>, d: char, max: nat)
    ensures
        digits_value(Seq::empty()) == 0,
        '0' <= d <= '9' ==> digits_value(s.push(d)) == 10 * digits_value(s) + (d as int
            - '0' as int),
        parsed_unsigned(s, max) matches Some(n) ==> n <= max && s.len() > 0,
        parsed_unsigned(s, max) is Some ==> forall|i: int|
            0 <= i < s.len() ==> '0' <= #[trigger] s[i] <= '9' || (i == 0 && s[0] == '+'
                && s.len() > 1),
        s.len() > 0 && (forall|i: int| 0 <= i < s.len() ==> '0' <= #[trigger] s[i] <= '9')
            && digits_value(s) <= max ==> parsed_unsigned(s, max) == Some(digits_value(s)),
        s.len() > 0 && (forall|i: int| 0 <= i < s.len() ==> '0' <= #[trigger] s[i] <= '9')
            && digits_value(s) <= max ==> parsed_unsigned(seq!['+'] + s, max) == Some(
            digits_value(s),
        ),
        s.len() > 0 && (forall|i: int| 0 <= i < s.len() ==> '0' <= #[trigger] s[i] <= '9')
            && digits_value(s) > max ==> parsed_unsigned(s, max) is None,
{
    assert(s.push(d).drop_last() =~= s);
    let signed = seq!['+'] + s;
    assert(signed.drop_first() =~= s);
    let digits = unsigned_digits(s);
    if parsed_unsigned(s, max) is Some {
        assert forall|i: int| 0 <= i < s.len() implies '0' <= #[trigger] s[i] <= '9' || (i == 0
            && s[0] == '+' && s.len() > 1) by {
            if s[0] == '+' {
                if i > 0 {
                    assert(is_digit(digits[i - 1]));
                }
            } else {
                assert(is_digit(digits[i]));
            }
        }
    }
    if s.len() > 0 && forall|i: int| 0 <= i < s.len() ==> '0' <= #[trigger] s[i] <= '9' {
        assert('0' <= s[0] <= '9');
        assert(digits == s);
        assert(unsigned_digits(signed) == s);
    }
}

/// A number in decimal: it reads back as itself, and has no zero in front.
pub proof fn law_decimal_has_no_leading_zero(n: nat)
    ensures
        parsed_unsigned(decimal(n), n) == Some(n),
        n > 0 ==> decimal(n)[0] != '0',
        n < 10 ==> decimal(n).len() == 1,
        forall|i: int| 0 <= i < decimal(n).len() ==> '0' <= #[trigger] decimal(n)[i] <= '9',
    decreases n,
{
    lemma_decimal_parses(n, n);
    lemma_decimal_digits(n);
    assert forall|i: int| 0 <= i < decimal(n).len() implies '0' <= #[trigger] decimal(n)[i]
        <= '9' by {
        assert(is_digit(decimal(n)[i]));
    }
    if n >= 10 {
        law_decimal_has_no_leading_zero(n / 10);
        lemma_decimal_digits(n / 10);
        assert(decimal(n)[0] == decimal(n / 10)[0]);
    }
}

/// A negative number has a minus sign in front of its decimal notation.
pub proof fn law_negative_numbers_have_a_sign(n: nat)
    ensures
        signed_decimal(n as int) == decimal(n),
        n > 0 ==> signed_decimal(-(n as int)) == seq!['-'] + decimal(n),
{
    reveal_strlit("-");
    assert("-"@ =~= seq!['-']);
}

/// The value of a hexadecimal digit.
pub open spec fn hex_value(c: char) -> int {
    if '0' <= c <= '9' {
        c as int - '0' as int
    } else {
        c as int - 'a' as int + 10
    }
}

/// The number that hexadecimal digits write.
pub open spec fn hex_number(s: Seq<char>) -> int
    decreases s.len(),
{
    if s.len() == 0 {
        0
    } else {
        16 * hex_number(s.drop_last()) + hex_value(s.last())
    }
}

proof fn lemma_hexadecimal(n: nat)
    ensures
        hex_number(hexadecimal(n)) == n,
        hexadecimal(n).len() > 0,
        n > 0 ==> hexadecimal(n)[0] != '0',
        forall|i: int|
            0 <= i < hexadecimal(n).len() ==> '0' <= #[trigger] hexadecimal(n)[i] <= '9' || 'a'
                <= hexadecimal(n)[i] <= 'f',
    decreases n,
{
    let d = n % 16;
    assert(hex_value(hex_char(d)) == d);
    let s = hexadecimal(n);
    if n < 16 {
        assert(s.drop_last() =~= Seq::<char>::empty());
        assert(hex_number(s.drop_last()) == 0);
    } else {
        lemma_hexadecimal(n / 16);
        assert(s.drop_last() =~= hexadecimal(n / 16));
    }
}

proof fn lemma_zeros(count: nat, s: Seq<char>)
    ensures
        hex_number(zero_digits(count) + s) == hex_number(s),
    decreases s.len(), count,
{
    let all = zero_digits(count) + s;
    if s.len() > 0 {
        lemma_zeros(count, s.drop_last());
        assert(all.drop_last() =~= zero_digits(count) + s.drop_last());
        assert(all.last() == s.last());
    } else if count > 0 {
        lemma_zeros((count - 1) as nat, s);
        assert(all.drop_last() =~= zero_digits((count - 1) as nat) + s);
        assert(all.last() == '0');
    } else {
        assert(all =~= s);
    }
}

/// A number in hexadecimal reads back as itself, in digits of lower case, and is
/// filled up with zeros to the width that is asked for.
pub proof fn law_hexadecimal_reads_back(n: nat, width: nat)
    ensures
        hex_number(hexadecimal(n)) == n,
        n > 0 ==> hexadecimal(n)[0] != '0',
        hex_number(padded_hexadecimal(n, width)) == n,
        padded_hexadecimal(n, width).len() >= width,
        hexadecimal(n).len() <= width ==> padded_hexadecimal(n, width).len() == width,
        hexadecimal(n).len() >= width ==> padded_hexadecimal(n, width) == hexadecimal(n),
        forall|i: int|
            0 <= i < hexadecimal(n).len() ==> '0' <= #[trigger] hexadecimal(n)[i] <= '9' || 'a'
                <= hexadecimal(n)[i] <= 'f',
{
    lemma_hexadecimal(n);
    if hexadecimal(n).len() < width {
        lemma_zeros((width - hexadecimal(n).len()) as nat, hexadecimal(n));
    }
}

/// Lowering changes the capital letters of ASCII and nothing else.
pub proof fn law_lowering_changes_capitals_only(s: Seq<char>, i: int)
    requires
        0 <= i < s.len(),
    ensures
        lowered(s).len() == s.len(),
        !('A' <= s[i] <= 'Z') ==> lowered(s)[i] == s[i],
        'A' <= s[i] <= 'Z' ==> lowered(s)[i] as int - 'a' as int == s[i] as int - 'A' as int,
{
}

/// The last place of a character: there it stands, and nowhere behind it.
pub proof fn law_last_place(s: Seq<char>, c: char)
    ensures
        last_index(s, c) < s.len(),
        last_index(s, c) >= 0 ==> s[last_index(s, c)] == c,
        forall|i: int| last_index(s, c) < i < s.len() && 0 <= i ==> #[trigger] s[i] != c,
    decreases s.len(),
{
    if s.len() > 0 && s.last() != c {
        law_last_place(s.drop_last(), c);
        assert forall|i: int| last_index(s, c) < i < s.len() && 0 <= i implies #[trigger] s[i]
            != c by {
            if i < s.len() - 1 {
                assert(s.drop_last()[i] == s[i]);
            }
        }
    }
}

/// The last place of two characters in a row: there they stand, and nowhere behind.
pub proof fn law_last_place_of_a_pair(s: Seq<char>, a: char, b: char)
    ensures
        last_pair(s, a, b) + 1 < s.len() || last_pair(s, a, b) < 0,
        last_pair(s, a, b) >= 0 ==> s[last_pair(s, a, b)] == a && s[last_pair(s, a, b) + 1] == b,
        forall|i: int|
            last_pair(s, a, b) < i < s.len() - 1 && 0 <= i ==> !(#[trigger] s[i] == a && s[i + 1]
                == b),
    decreases s.len(),
{
    if s.len() >= 2 && !(s[s.len() - 2] == a && s.last() == b) {
        let front = s.drop_last();
        law_last_place_of_a_pair(front, a, b);
        assert forall|i: int| last_pair(s, a, b) < i < s.len() - 1 && 0 <= i implies !(
        #[trigger] s[i] == a && s[i + 1] == b) by {
            if i + 1 < front.len() {
                assert(front[i] == s[i]);
            }
        }
    }
}

/// Counting a character: none is counted in a text without it, and each one adds one.
pub proof fn law_counting(s: Seq<char>, c: char, d: char)
    ensures
        occurrences(s.push(d), c) == occurrences(s, c) + if d == c {
            1int
        } else {
            0int
        },
        occurrences(s, c) == 0 <==> !s.contains(c),
    decreases s.len(),
{
    assert(s.push(d).drop_last() =~= s);
    if s.len() > 0 {
        law_counting(s.drop_last(), c, d);
        if s.contains(c) && s.last() != c {
            let i = choose|i: int| 0 <= i < s.len() && s[i] == c;
            assert(s.drop_last()[i] == c);
        }
        if s.drop_last().contains(c) {
            let i = choose|i: int| 0 <= i < s.drop_last().len() && s.drop_last()[i] == c;
            assert(s[i] == c);
        }
        if s.last() == c {
            assert(s[s.len() - 1] == c);
        }
    }
}

/// The ends of a text without a suffix, however often it stands there: none is left,
/// one more makes no difference, and a text that does not end so stays.
pub proof fn law_suffixes_go_away(s: Seq<char>, suffix: Seq<char>)
    requires
        suffix.len() > 0,
    ensures
        without_suffixes(s + suffix, suffix) == without_suffixes(s, suffix),
        !suffix.is_suffix_of(s) ==> without_suffixes(s, suffix) == s,
        !suffix.is_suffix_of(without_suffixes(s, suffix)),
        without_suffixes(s, suffix).is_prefix_of(s),
    decreases s.len(),
{
    let t = s + suffix;
    assert(t.skip(t.len() - suffix.len()) =~= suffix);
    assert(t.take(t.len() - suffix.len()) =~= s);
    if suffix.len() <= s.len() && suffix == s.skip(s.len() - suffix.len()) {
        let front = s.take(s.len() - suffix.len());
        law_suffixes_go_away(front, suffix);
        assert(suffix =~= s.subrange(s.len() - suffix.len(), s.len() as int));
        assert(suffix.is_suffix_of(s));
        let rest = without_suffixes(s, suffix);
        assert(rest == front.subrange(0, rest.len() as int));
        assert(rest =~= s.subrange(0, rest.len() as int));
    } else {
        if suffix.is_suffix_of(s) {
            assert(suffix =~= s.skip(s.len() - suffix.len()));
        }
        assert(s =~= s.subrange(0, s.len() as int));
    }
}

/// The beginning and the end of a text: no longer than asked for, the whole text if
/// it is short enough, and otherwise exactly as long as asked for.
pub proof fn law_beginnings_and_ends(s: Seq<char>, limit: nat)
    ensures
        at_most(s, limit).len() <= limit,
        at_most(s, limit).is_prefix_of(s),
        s.len() <= limit ==> at_most(s, limit) == s,
        s.len() >= limit ==> at_most(s, limit).len() == limit,
        last_chars(s, limit).len() <= limit,
        last_chars(s, limit).is_suffix_of(s),
        s.len() <= limit ==> last_chars(s, limit) == s,
        s.len() >= limit ==> last_chars(s, limit).len() == limit,
{
    let a = at_most(s, limit);
    assert(a =~= s.subrange(0, a.len() as int));
    let b = last_chars(s, limit);
    assert(b =~= s.subrange(s.len() - b.len(), s.len() as int));
}

/// Of what was typed, the digits stay, in their order, and nothing else does.
pub proof fn law_digits_are_filtered(s: Seq<char>)
    ensures
        only_digits(s) == s.filter(|c: char| '0' <= c <= '9'),
{
    let f = |c: char| is_digit(c);
    let g = |c: char| '0' <= c <= '9';
    assert(f =~= g);
}

} // verus!
