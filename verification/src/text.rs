//! Text helpers shared by the other modules: character access, searching,
//! trimming and decimal numbers.
//!
//! Everything here is stated over `Seq<char>`, the view of `str` and
//! `String`. The executable functions work on character slices.

use vstd::prelude::*;

verus! {

/// What `str::to_lowercase` returns for a string with the given characters.
pub uninterp spec fn lowercase_of(s: Seq<char>) -> Seq<char>;

/// What `str::to_uppercase` returns for a string with the given characters.
pub uninterp spec fn uppercase_of(s: Seq<char>) -> Seq<char>;

/// The character is white space: it has the property `White_Space` of
/// the Unicode Character Database, which lists these code points.
pub open spec fn is_space(c: char) -> bool {
    let n = c as u32;
    ||| 0x0009 <= n <= 0x000D
    ||| n == 0x0020
    ||| n == 0x0085
    ||| n == 0x00A0
    ||| n == 0x1680
    ||| 0x2000 <= n <= 0x200A
    ||| n == 0x2028
    ||| n == 0x2029
    ||| n == 0x202F
    ||| n == 0x205F
    ||| n == 0x3000
}

/// Calls `str::to_lowercase`. The result is the Unicode lowercase form of
/// the argument; the proofs know it only under the name `lowercase_of`.
#[verifier::external_body]
pub(crate) fn to_lowercase(s: &str) -> (r: String)
    ensures
        r@ == lowercase_of(s@),
{
    s.to_lowercase()
}

/// Calls `str::to_uppercase`. The result is the Unicode uppercase form of
/// the argument; the proofs know it only under the name `uppercase_of`.
#[verifier::external_body]
pub(crate) fn to_uppercase(s: &str) -> (r: String)
    ensures
        r@ == uppercase_of(s@),
{
    s.to_uppercase()
}

/// Calls `char::is_whitespace`, which tells whether the character has the
/// property `White_Space` of the Unicode Character Database. The contract
/// writes that property out as the code points that the database lists.
#[verifier::external_body]
pub(crate) fn char_is_whitespace(c: char) -> (r: bool)
    ensures
        r == is_space(c),
{
    c.is_whitespace()
}

/// Calls `String::from_utf8`, which gives the string exactly where the
/// bytes are valid UTF-8: the string that those bytes encode.
#[verifier::external_body]
pub(crate) fn string_from_utf8(bytes: Vec<u8>) -> (r: Option<String>)
    ensures
        r is Some <==> vstd::utf8::valid_utf8(bytes@),
        r matches Some(s) ==> s@ == vstd::utf8::decode_utf8(bytes@),
{
    String::from_utf8(bytes).ok()
}

/// `String::push` appends one character at the end and changes nothing
/// else.
pub assume_specification[ String::push ](s: &mut String, c: char)
    ensures
        final(s)@ == old(s)@.push(c),
;

/// The characters of a text that may be absent.
pub open spec fn maybe_text(text: Option<&str>) -> Option<Seq<char>> {
    match text {
        Some(t) => Some(t@),
        None => None,
    }
}

/// The characters of a string that may be absent.
pub open spec fn maybe_string(text: Option<String>) -> Option<Seq<char>> {
    match text {
        Some(t) => Some(t@),
        None => None,
    }
}

/// `needle` stands in `hay` at index `i`.
pub open spec fn occurs_at(hay: Seq<char>, needle: Seq<char>, i: int) -> bool {
    &&& 0 <= i
    &&& i + needle.len() <= hay.len()
    &&& hay.subrange(i, i + needle.len()) == needle
}

/// `needle` stands somewhere in `hay`.
pub open spec fn contains_text(hay: Seq<char>, needle: Seq<char>) -> bool {
    exists|i: int| occurs_at(hay, needle, i)
}

/// `s` begins with `prefix`.
pub open spec fn has_prefix(s: Seq<char>, prefix: Seq<char>) -> bool {
    occurs_at(s, prefix, 0)
}

/// `s` ends with `suffix`.
pub open spec fn has_suffix(s: Seq<char>, suffix: Seq<char>) -> bool {
    occurs_at(s, suffix, s.len() - suffix.len())
}

/// The least index at or after `from` at which `needle` stands in `hay`,
/// or `hay.len() + 1` where there is none.
pub open spec fn next_occurrence(hay: Seq<char>, needle: Seq<char>, from: int) -> int
    decreases hay.len() + 1 - from,
{
    if from < 0 || from > hay.len() {
        hay.len() as int + 1
    } else if occurs_at(hay, needle, from) {
        from
    } else {
        next_occurrence(hay, needle, from + 1)
    }
}

/// The least index at or after `from` that holds `c`, or `s.len()` where
/// none does.
pub open spec fn next_char(s: Seq<char>, c: char, from: int) -> int
    decreases s.len() - from,
{
    if from < 0 || from >= s.len() {
        s.len() as int
    } else if s[from] == c {
        from
    } else {
        next_char(s, c, from + 1)
    }
}

/// `next_char` gives the first index at or after `from` that holds `c`, and
/// `s.len()` exactly where there is none.
pub proof fn lemma_next_char(s: Seq<char>, c: char, from: int)
    requires
        0 <= from <= s.len(),
    ensures
        from <= next_char(s, c, from) <= s.len(),
        next_char(s, c, from) < s.len() ==> s[next_char(s, c, from)] == c,
        forall|j: int| from <= j < next_char(s, c, from) ==> s[j] != c,
    decreases s.len() - from,
{
    if from < s.len() && s[from] != c {
        lemma_next_char(s, c, from + 1);
    }
}

/// How many leading characters of `s` are white space.
pub open spec fn leading_spaces(s: Seq<char>) -> nat
    decreases s.len(),
{
    if s.len() > 0 && is_space(s[0]) {
        1 + leading_spaces(s.skip(1))
    } else {
        0
    }
}

/// How many trailing characters of `s` are white space.
pub open spec fn trailing_spaces(s: Seq<char>) -> nat
    decreases s.len(),
{
    if s.len() > 0 && is_space(s.last()) {
        1 + trailing_spaces(s.drop_last())
    } else {
        0
    }
}

/// `s` without its leading and trailing white space.
pub open spec fn trimmed(s: Seq<char>) -> Seq<char> {
    let rest = s.skip(leading_spaces(s) as int);
    rest.take(rest.len() - trailing_spaces(rest))
}

/// The character that writes the digit `d`.
pub open spec fn digit_char(d: nat) -> char {
    (48 + d) as char
}

/// `c` is one of `0` to `9`.
pub open spec fn is_digit(c: char) -> bool {
    48 <= c as int <= 57
}

/// Every character of `s` is a decimal digit.
pub open spec fn all_digits(s: Seq<char>) -> bool {
    forall|i: int| 0 <= i < s.len() ==> is_digit(#[trigger] s[i])
}

/// The number that the digits of `s` write in base ten.
pub open spec fn digits_value(s: Seq<char>) -> nat
    decreases s.len(),
{
    if s.len() == 0 {
        0
    } else {
        (digits_value(s.drop_last()) * 10 + (s.last() as int - 48)) as nat
    }
}

/// The shortest decimal writing of `n`.
pub open spec fn decimal_digits(n: nat) -> Seq<char>
    decreases n,
{
    if n < 10 {
        seq![digit_char(n)]
    } else {
        decimal_digits(n / 10).push(digit_char(n % 10))
    }
}

/// What parsing `s` as an unsigned integer no greater than `max` gives: an
/// optional `+`, then one or more digits and nothing else.
pub open spec fn parse_unsigned(s: Seq<char>, max: nat) -> Option<nat> {
    let body = if s.len() > 0 && s[0] == '+' {
        s.skip(1)
    } else {
        s
    };
    if body.len() > 0 && all_digits(body) && digits_value(body) <= max {
        Some(digits_value(body))
    } else {
        None
    }
}

/// The characters of `s`, in order.
pub fn chars_of(s: &str) -> (r: Vec<char>)
    ensures
        r@ == s@,
{
    let mut out: Vec<char> = Vec::new();
    for c in it: s.chars()
        invariant
            out@ == it.seq().take(it.index() as int),
    {
        out.push(c);
    }
    out
}

/// The string made of the given characters.
pub fn string_of(chars: &[char]) -> (r: String)
    ensures
        r@ == chars@,
{
    let mut out = String::new();
    let mut i: usize = 0;
    while i < chars.len()
        invariant
            i <= chars.len(),
            out@ == chars@.take(i as int),
        decreases chars.len() - i,
    {
        out.push(chars[i]);
        i += 1;
    }
    out
}

/// Appends the characters of `s` to `out`.
pub fn push_text(out: &mut Vec<char>, s: &str)
    ensures
        final(out)@ == old(out)@ + s@,
{
    let ghost before = out@;
    for c in it: s.chars()
        invariant
            out@ == before + it.seq().take(it.index() as int),
    {
        out.push(c);
    }
}

/// Appends a copy of `chars[from..to]` to `out`.
pub(crate) fn push_range(out: &mut Vec<char>, chars: &[char], from: usize, to: usize)
    requires
        from <= to <= chars.len(),
    ensures
        final(out)@ == old(out)@ + chars@.subrange(from as int, to as int),
{
    let ghost before = out@;
    let mut i: usize = from;
    while i < to
        invariant
            from <= i <= to <= chars.len(),
            out@ == before + chars@.subrange(from as int, i as int),
        decreases to - i,
    {
        out.push(chars[i]);
        i += 1;
    }
}

/// Tells whether `needle` stands in `hay` at index `i`.
pub fn matches_at(hay: &[char], needle: &[char], i: usize) -> (r: bool)
    ensures
        r == occurs_at(hay@, needle@, i as int),
{
    if needle.len() > hay.len() || i > hay.len() - needle.len() {
        return false;
    }
    let mut k: usize = 0;
    while k < needle.len()
        invariant
            k <= needle.len(),
            i + needle.len() <= hay.len(),
            forall|j: int| 0 <= j < k ==> hay@[i + j] == needle@[j],
        decreases needle.len() - k,
    {
        if hay[i + k] != needle[k] {
            return false;
        }
        k += 1;
    }
    assert(hay@.subrange(i as int, i + needle.len()) =~= needle@);
    true
}

/// Tells whether two slices hold the same characters.
pub fn same_text(a: &[char], b: &[char]) -> (r: bool)
    ensures
        r == (a@ == b@),
{
    if a.len() != b.len() {
        return false;
    }
    let r = matches_at(a, b, 0);
    assert(a@.subrange(0, a@.len() as int) =~= a@);
    r
}

/// Tells whether two texts are the same.
pub fn text_is(a: &str, b: &str) -> (r: bool)
    ensures
        r == (a@ == b@),
{
    let x = chars_of(a);
    let y = chars_of(b);
    same_text(x.as_slice(), y.as_slice())
}

/// Tells whether `s` begins with `prefix`.
pub fn starts_with(s: &[char], prefix: &[char]) -> (r: bool)
    ensures
        r == has_prefix(s@, prefix@),
{
    matches_at(s, prefix, 0)
}

/// Tells whether `s` ends with `suffix`.
pub fn ends_with(s: &[char], suffix: &[char]) -> (r: bool)
    ensures
        r == has_suffix(s@, suffix@),
{
    if suffix.len() > s.len() {
        return false;
    }
    matches_at(s, suffix, s.len() - suffix.len())
}

/// Finds the first place at or after `from` where `needle` stands in `hay`.
pub fn find_from(hay: &[char], needle: &[char], from: usize) -> (r: Option<usize>)
    ensures
        match r {
            Some(i) => {
                &&& i == next_occurrence(hay@, needle@, from as int)
                &&& from <= i <= hay.len()
                &&& occurs_at(hay@, needle@, i as int)
                &&& forall|j: int| from <= j < i ==> !occurs_at(hay@, needle@, j)
            },
            None => {
                &&& next_occurrence(hay@, needle@, from as int) > hay.len()
                &&& forall|j: int| from <= j ==> !occurs_at(hay@, needle@, j)
            },
        },
{
    if from > hay.len() {
        return None;
    }
    let mut i: usize = from;
    while i < hay.len()
        invariant
            from <= i <= hay.len(),
            next_occurrence(hay@, needle@, from as int) == next_occurrence(
                hay@,
                needle@,
                i as int,
            ),
            forall|j: int| from <= j < i ==> !occurs_at(hay@, needle@, j),
        decreases hay.len() - i,
    {
        if matches_at(hay, needle, i) {
            return Some(i);
        }
        i += 1;
    }
    if matches_at(hay, needle, i) {
        Some(i)
    } else {
        assert(next_occurrence(hay@, needle@, i + 1) == hay.len() + 1);
        None
    }
}

/// Tells whether `needle` stands somewhere in `hay`.
pub fn contains(hay: &[char], needle: &[char]) -> (r: bool)
    ensures
        r == contains_text(hay@, needle@),
{
    let mut i: usize = 0;
    while i < hay.len()
        invariant
            i <= hay.len(),
            forall|j: int| 0 <= j < i ==> !occurs_at(hay@, needle@, j),
        decreases hay.len() - i,
    {
        if matches_at(hay, needle, i) {
            return true;
        }
        i += 1;
    }
    matches_at(hay, needle, i)
}

/// Finds the first index at or after `from` that holds `c`.
pub fn find_char(s: &[char], c: char, from: usize) -> (r: usize)
    ensures
        r == next_char(s@, c, from as int),
        r <= s.len(),
        from <= s.len() ==> from <= r,
        r < s.len() ==> s@[r as int] == c,
        forall|j: int| from <= j < r ==> s@[j] != c,
{
    if from >= s.len() {
        return s.len();
    }
    let mut i: usize = from;
    while i < s.len()
        invariant
            from <= i <= s.len(),
            next_char(s@, c, from as int) == next_char(s@, c, i as int),
            forall|j: int| from <= j < i ==> s@[j] != c,
        decreases s.len() - i,
    {
        if s[i] == c {
            return i;
        }
        i += 1;
    }
    i
}

/// The bounds of `s[from..to]` without its leading and trailing white
/// space.
pub(crate) fn trim_range(s: &[char], from: usize, to: usize) -> (r: (usize, usize))
    requires
        from <= to <= s.len(),
    ensures
        from <= r.0 <= r.1 <= to,
        s@.subrange(r.0 as int, r.1 as int) == trimmed(s@.subrange(from as int, to as int)),
{
    let ghost whole = s@.subrange(from as int, to as int);
    let mut a: usize = from;
    assert(whole.skip(0) =~= whole);
    while a < to && char_is_whitespace(s[a])
        invariant
            from <= a <= to <= s.len(),
            whole == s@.subrange(from as int, to as int),
            leading_spaces(whole) == (a - from) + leading_spaces(whole.skip(a - from)),
        decreases to - a,
    {
        proof {
            let rest = whole.skip(a - from);
            assert(rest.skip(1) =~= whole.skip(a + 1 - from));
        }
        a += 1;
    }
    let ghost rest = whole.skip(a - from);
    let mut b: usize = to;
    assert(rest.take(to - a) =~= rest);
    while b > a && char_is_whitespace(s[b - 1])
        invariant
            from <= a <= b <= to <= s.len(),
            whole == s@.subrange(from as int, to as int),
            rest == whole.skip(a - from),
            trailing_spaces(rest) == (to - b) + trailing_spaces(rest.take(b - a)),
        decreases b - a,
    {
        proof {
            let head = rest.take(b - a);
            assert(head.drop_last() =~= rest.take(b - 1 - a));
        }
        b -= 1;
    }
    (a, b)
}

/// Parses `s[from..to]` as an unsigned decimal number no greater than
/// `max`, as the integer types of the standard library parse their text.
pub(crate) fn parse_decimal(s: &[char], from: usize, to: usize, max: u64) -> (r: Option<u64>)
    requires
        from <= to <= s.len(),
    ensures
        r == match parse_unsigned(s@.subrange(from as int, to as int), max as nat) {
            Some(n) => Some(n as u64),
            None => None,
        },
{
    let ghost text = s@.subrange(from as int, to as int);
    let start: usize = if from < to && s[from] == '+' {
        from + 1
    } else {
        from
    };
    let ghost body = s@.subrange(start as int, to as int);
    proof {
        if start > from {
            assert(body =~= text.skip(1));
        }
    }
    if start == to {
        return None;
    }
    let mut acc: u64 = 0;
    let mut i: usize = start;
    while i < to
        invariant
            from <= start <= i <= to <= s.len(),
            text == s@.subrange(from as int, to as int),
            body == s@.subrange(start as int, to as int),
            parse_unsigned(text, max as nat) == if all_digits(body) && digits_value(body) <= max {
                Some(digits_value(body))
            } else {
                None
            },
            all_digits(body.take(i - start)),
            acc as nat == digits_value(body.take(i - start)),
            acc <= max,
        decreases to - i,
    {
        let c = s[i];
        let ghost next = body.take(i + 1 - start);
        proof {
            assert(next.drop_last() =~= body.take(i - start));
        }
        if c < '0' || c > '9' {
            assert(!is_digit(body[i - start]));
            return None;
        }
        let d: u64 = (c as u32 - '0' as u32) as u64;
        if d > max || acc > (max - d) / 10 {
            proof {
                lemma_digits_value_grows(body, i + 1 - start);
            }
            return None;
        }
        acc = acc * 10 + d;
        i += 1;
    }
    proof {
        assert(body.take(to - start) =~= body);
    }
    Some(acc)
}

/// The bounds of `s` without its leading and trailing white space.
pub fn trim_bounds(s: &[char]) -> (r: (usize, usize))
    ensures
        r.0 <= r.1 <= s.len(),
        s@.subrange(r.0 as int, r.1 as int) == trimmed(s@),
{
    assert(s@.subrange(0, s@.len() as int) =~= s@);
    trim_range(s, 0, s.len())
}

/// What `s` is as an unsigned decimal number no greater than `max`: an
/// optional `+`, then one or more digits and nothing else.
pub fn parse_number(s: &str, max: u64) -> (r: Option<u64>)
    ensures
        r == match parse_unsigned(s@, max as nat) {
            Some(n) => Some(n as u64),
            None => None,
        },
{
    let c = chars_of(s);
    assert(c@.subrange(0, c@.len() as int) =~= c@);
    parse_decimal(c.as_slice(), 0, c.len(), max)
}

/// A longer run of digits writes no smaller a number than its beginning.
pub proof fn lemma_digits_value_grows(s: Seq<char>, k: int)
    requires
        0 <= k <= s.len(),
    ensures
        digits_value(s.take(k)) <= digits_value(s) || !all_digits(s),
    decreases s.len() - k,
{
    if k < s.len() {
        if all_digits(s) {
            lemma_digits_value_grows(s, k + 1);
            let next = s.take(k + 1);
            assert(next.drop_last() =~= s.take(k));
        }
    } else {
        assert(s.take(k) =~= s);
    }
}

/// Appends the shortest decimal writing of `n` to `out`.
pub fn push_decimal(out: &mut Vec<char>, n: u64)
    ensures
        final(out)@ == old(out)@ + decimal_digits(n as nat),
    decreases n,
{
    if n >= 10 {
        push_decimal(out, n / 10);
    }
    let d: u8 = (n % 10) as u8;
    let c: char = (48u8 + d) as char;
    out.push(c);
}

/// The decimal writing of a number consists of digits only, is not empty,
/// and writes that number.
pub proof fn lemma_decimal_digits(n: nat)
    ensures
        decimal_digits(n).len() > 0,
        all_digits(decimal_digits(n)),
        digits_value(decimal_digits(n)) == n,
    decreases n,
{
    if n < 10 {
        let s = seq![digit_char(n)];
        assert(digits_value(s.drop_last()) == 0);
    } else {
        lemma_decimal_digits(n / 10);
        let head = decimal_digits(n / 10);
        let s = head.push(digit_char(n % 10));
        assert(s.drop_last() =~= head);
    }
}

/// Parsing the decimal writing of a number gives the number back.
pub proof fn lemma_parse_decimal_digits(n: nat, max: nat)
    requires
        n <= max,
    ensures
        parse_unsigned(decimal_digits(n), max) == Some(n),
{
    lemma_decimal_digits(n);
}

/// Where no index from `from` up to `at` holds `c`, and `at` holds it or is
/// the end, `at` is where `c` is found first.
pub proof fn lemma_next_char_is(s: Seq<char>, c: char, from: int, at: int)
    requires
        0 <= from <= at <= s.len(),
        forall|j: int| from <= j < at ==> s[j] != c,
        at == s.len() || s[at] == c,
    ensures
        next_char(s, c, from) == at,
    decreases at - from,
{
    if from < at {
        lemma_next_char_is(s, c, from + 1, at);
    }
}

/// The decimal writing of a number has as many digits as the number needs,
/// and begins with a zero only where it is the zero.
pub proof fn lemma_decimal_digits_shape(n: nat)
    ensures
        n < 10 ==> decimal_digits(n).len() == 1,
        10 <= n < 100 ==> decimal_digits(n).len() == 2,
        100 <= n < 1000 ==> decimal_digits(n).len() == 3,
        n >= 1 ==> decimal_digits(n)[0] != '0',
        decimal_digits(n).len() >= 1,
    decreases n,
{
    if n >= 10 {
        lemma_decimal_digits_shape(n / 10);
    }
}

/// The least index at or after `from` that holds white space, where
/// `space` is true, or anything else, where it is false; `s.len()` where no
/// index does.
pub open spec fn next_of_kind(s: Seq<char>, space: bool, from: int) -> int
    decreases s.len() - from,
{
    if from < 0 || from >= s.len() {
        s.len() as int
    } else if is_space(s[from]) == space {
        from
    } else {
        next_of_kind(s, space, from + 1)
    }
}

/// The bounds of the word number `n`, counted from zero, among the words
/// of `s` at or after `from`. A word is a longest run of characters that are
/// no white space.
pub open spec fn word_bounds(s: Seq<char>, n: nat, from: int) -> Option<(int, int)>
    decreases n,
{
    let a = next_of_kind(s, false, from);
    let b = next_of_kind(s, true, a);
    if a >= s.len() {
        None
    } else if n == 0 {
        Some((a, b))
    } else {
        word_bounds(s, (n - 1) as nat, b)
    }
}

/// Finds the first index at or after `from` that holds white space, or that
/// holds none.
pub fn find_kind(s: &[char], space: bool, from: usize) -> (r: usize)
    ensures
        r == next_of_kind(s@, space, from as int),
        r <= s.len(),
        from <= s.len() ==> from <= r,
{
    if from >= s.len() {
        return s.len();
    }
    let mut i: usize = from;
    while i < s.len()
        invariant
            from <= i <= s.len(),
            next_of_kind(s@, space, from as int) == next_of_kind(s@, space, i as int),
        decreases s.len() - i,
    {
        if char_is_whitespace(s[i]) == space {
            return i;
        }
        i += 1;
    }
    i
}

/// Finds the word number `n`, counted from zero, of `s`.
pub fn find_word(s: &[char], n: usize) -> (r: Option<(usize, usize)>)
    ensures
        match r {
            Some((a, b)) => word_bounds(s@, n as nat, 0) == Some((a as int, b as int)) && a <= b
                <= s.len(),
            None => word_bounds(s@, n as nat, 0) is None,
        },
{
    let mut from: usize = 0;
    let mut left: usize = n;
    loop
        invariant
            from <= s.len(),
            left <= n,
            word_bounds(s@, n as nat, 0) == word_bounds(s@, left as nat, from as int),
        decreases left,
    {
        let a = find_kind(s, false, from);
        if a >= s.len() {
            return None;
        }
        let b = find_kind(s, true, a);
        if left == 0 {
            return Some((a, b));
        }
        left -= 1;
        from = b;
    }
}

} // verus!
