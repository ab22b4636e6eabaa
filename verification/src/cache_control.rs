//! What a `Cache-Control` header says about how long a response may be
//! kept.

use vstd::prelude::*;
use crate::text::{
    chars_of, decimal_digits, find_char, has_prefix, lemma_next_char,
    lemma_parse_decimal_digits, lowercase_of, next_char, parse_decimal, parse_unsigned, push_range,
    same_text, starts_with, string_of, to_lowercase, trim_range, trimmed,
};
use crate::time::Span;

verus! {

/// What one directive of a `Cache-Control` header, trimmed and in
/// lowercase, says about the time to live: `no-store` and `no-cache` say
/// zero, `max-age=N` and `s-maxage=N` say `N` seconds, and any other
/// directive says nothing.
pub open spec fn directive_says(directive: Seq<char>) -> Option<Span> {
    if directive == "no-store"@ || directive == "no-cache"@ {
        Some(Span { nanos: 0 })
    } else if has_prefix(directive, "max-age="@) {
        match parse_unsigned(directive.skip("max-age="@.len() as int), u64::MAX as nat) {
            Some(n) => Some(Span::of_secs(n as u64)),
            None => None,
        }
    } else if has_prefix(directive, "s-maxage="@) {
        match parse_unsigned(directive.skip("s-maxage="@.len() as int), u64::MAX as nat) {
            Some(n) => Some(Span::of_secs(n as u64)),
            None => None,
        }
    } else {
        None
    }
}

/// What a `Cache-Control` header says from index `from` on: what the
/// first of its comma-separated directives that says anything says, each
/// directive taken without its surrounding white space and in lowercase.
pub open spec fn header_says(header: Seq<char>, from: int) -> Option<Span>
    decreases header.len() - from,
{
    if from < 0 || from > header.len() {
        None
    } else {
        let end = next_char(header, ',', from);
        proof {
            lemma_next_char(header, ',', from);
        }
        match directive_says(lowercase_of(trimmed(header.subrange(from, end)))) {
            Some(t) => Some(t),
            None => if end >= header.len() {
                None
            } else {
                header_says(header, end + 1)
            },
        }
    }
}

/// What one directive, trimmed and in lowercase, says about the time to
/// live.
pub fn directive_ttl(directive: &str) -> (r: Option<Span>)
    ensures
        r == directive_says(directive@),
{
    let d = chars_of(directive);
    let d = d.as_slice();
    let no_store = chars_of("no-store");
    let no_cache = chars_of("no-cache");
    if same_text(d, no_store.as_slice()) || same_text(d, no_cache.as_slice()) {
        return Some(Span::zero());
    }
    let max_age = chars_of("max-age=");
    let s_maxage = chars_of("s-maxage=");
    if starts_with(d, max_age.as_slice()) {
        match parse_decimal(d, max_age.len(), d.len(), u64::MAX) {
            Some(n) => Some(Span::from_secs(n)),
            None => None,
        }
    } else if starts_with(d, s_maxage.as_slice()) {
        match parse_decimal(d, s_maxage.len(), d.len(), u64::MAX) {
            Some(n) => Some(Span::from_secs(n)),
            None => None,
        }
    } else {
        None
    }
}

/// The time to live that a `Cache-Control` header asks for, if it asks for
/// any; see [`header_says`].
pub fn parse_cache_control(header_value: &str) -> (r: Option<Span>)
    ensures
        r == header_says(header_value@, 0),
{
    let h = chars_of(header_value);
    let h = h.as_slice();
    let mut from: usize = 0;
    loop
        invariant
            from <= h.len(),
            h@ == header_value@,
            header_says(header_value@, 0) == header_says(h@, from as int),
        decreases h.len() - from,
    {
        let end = find_char(h, ',', from);
        let (a, b) = trim_range(h, from, end);
        let mut piece: Vec<char> = Vec::new();
        push_range(&mut piece, h, a, b);
        let piece = string_of(piece.as_slice());
        let directive = to_lowercase(piece.as_str());
        match directive_ttl(directive.as_str()) {
            Some(t) => {
                return Some(t);
            },
            None => {},
        }
        if end >= h.len() {
            return None;
        }
        from = end + 1;
    }
}

/// `max-age=N` says `N` seconds, whatever the number.
pub proof fn lemma_max_age_round_trip(n: u64)
    ensures
        directive_says("max-age="@ + decimal_digits(n as nat)) == Some(Span::of_secs(n)),
{
    reveal_strlit("max-age=");
    reveal_strlit("no-store");
    reveal_strlit("no-cache");
    let d = "max-age="@ + decimal_digits(n as nat);
    lemma_parse_decimal_digits(n as nat, u64::MAX as nat);
    assert(d.subrange(0, 8) =~= "max-age="@);
    assert(d.skip(8) =~= decimal_digits(n as nat));
}

/// `s-maxage=N` says `N` seconds, whatever the number.
pub proof fn lemma_s_maxage_round_trip(n: u64)
    ensures
        directive_says("s-maxage="@ + decimal_digits(n as nat)) == Some(Span::of_secs(n)),
{
    reveal_strlit("max-age=");
    reveal_strlit("s-maxage=");
    reveal_strlit("no-store");
    reveal_strlit("no-cache");
    let d = "s-maxage="@ + decimal_digits(n as nat);
    lemma_parse_decimal_digits(n as nat, u64::MAX as nat);
    assert(d.subrange(0, 9) =~= "s-maxage="@);
    assert(d.skip(9) =~= decimal_digits(n as nat));
    assert(!has_prefix(d, "max-age="@)) by {
        if has_prefix(d, "max-age="@) {
            assert(d.subrange(0, 8)[0] == 'm');
        }
    }
}

} // verus!
