//! Where the certificate of a domain is kept.

use vstd::prelude::*;
use crate::text::{chars_of, push_text, string_of};

verus! {

/// The domain with an underscore in the place of each dot.
pub open spec fn file_stem(domain: Seq<char>) -> Seq<char> {
    domain.map_values(
        |c: char|
            if c == '.' {
                '_'
            } else {
                c
            },
    )
}

fn push_stem(out: &mut Vec<char>, domain: &str)
    ensures
        final(out)@ == old(out)@ + file_stem(domain@),
{
    let d = chars_of(domain);
    let ghost before = out@;
    let mut i: usize = 0;
    while i < d.len()
        invariant
            i <= d.len(),
            d@ == domain@,
            out@ == before + file_stem(d@.take(i as int)),
        decreases d.len() - i,
    {
        let c = d[i];
        out.push(
            if c == '.' {
                '_'
            } else {
                c
            },
        );
        i += 1;
    }
}

/// The domain as a part of a file name: each dot gives way to an
/// underscore.
pub fn sanitize_domain_for_filename(domain: &str) -> (r: String)
    ensures
        r@ == file_stem(domain@),
{
    let mut out: Vec<char> = Vec::new();
    push_stem(&mut out, domain);
    string_of(out.as_slice())
}

/// The name of the file that holds the certificate of a domain.
pub fn cert_file_name(domain: &str) -> (r: String)
    ensures
        r@ == file_stem(domain@) + ".cert"@,
{
    let mut out: Vec<char> = Vec::new();
    push_stem(&mut out, domain);
    push_text(&mut out, ".cert");
    string_of(out.as_slice())
}

/// The name of the file that holds the private key of a domain.
pub fn key_file_name(domain: &str) -> (r: String)
    ensures
        r@ == file_stem(domain@) + ".key"@,
{
    let mut out: Vec<char> = Vec::new();
    push_stem(&mut out, domain);
    push_text(&mut out, ".key");
    string_of(out.as_slice())
}

/// The certificate and key to use of what was read from the two files: both,
/// where both could be read, and nothing otherwise, so that a new pair is
/// made.
pub fn stored_pair(cert: Option<Vec<u8>>, key: Option<Vec<u8>>) -> (r: Option<(Vec<u8>, Vec<u8>)>)
    ensures
        r == match (cert, key) {
            (Some(c), Some(k)) => Some((c, k)),
            _ => None,
        },
{
    match (cert, key) {
        (Some(c), Some(k)) => Some((c, k)),
        _ => None,
    }
}

} // verus!
