//! Base64 with the standard alphabet and `=` padding.
//!
//! Encoding pads. Decoding is lenient: it drops the padding at the end,
//! then reads the bytes four at a time and skips, within each four, those
//! that are outside the alphabet.

use vstd::prelude::*;
use vstd::utf8::{encode_utf8, is_ascii_chars, is_ascii_chars_encode_utf8};

verus! {

/// The byte that pads an encoding: `=`.
pub const PAD: u8 = 61;

/// The ASCII code of the character that stands for the value `v`, from 0
/// to 63: `A` to `Z`, `a` to `z`, `0` to `9`, `+`, `/`.
pub open spec fn sextet_byte(v: int) -> u8 {
    if v < 26 {
        (65 + v) as u8
    } else if v < 52 {
        (71 + v) as u8
    } else if v < 62 {
        (v - 4) as u8
    } else if v == 62 {
        43
    } else {
        47
    }
}

/// The value that a byte of the alphabet stands for.
pub open spec fn sextet_of(b: u8) -> Option<u8> {
    if 65 <= b <= 90 {
        Some((b - 65) as u8)
    } else if 97 <= b <= 122 {
        Some((b - 71) as u8)
    } else if 48 <= b <= 57 {
        Some((b + 4) as u8)
    } else if b == 43 {
        Some(62)
    } else if b == 47 {
        Some(63)
    } else {
        None
    }
}

/// The four characters for a group of one to three bytes.
pub open spec fn encoded_group(g: Seq<u8>) -> Seq<u8> {
    let b0 = g[0] as int;
    let b1 = if g.len() > 1 {
        g[1] as int
    } else {
        0
    };
    let b2 = if g.len() > 2 {
        g[2] as int
    } else {
        0
    };
    seq![
        sextet_byte(b0 / 4),
        sextet_byte((b0 % 4) * 16 + b1 / 16),
        if g.len() > 1 {
            sextet_byte((b1 % 16) * 4 + b2 / 64)
        } else {
            PAD
        },
        if g.len() > 2 {
            sextet_byte(b2 % 64)
        } else {
            PAD
        },
    ]
}

/// The encoding of `bytes`, as ASCII codes.
pub open spec fn base64_encoded(bytes: Seq<u8>) -> Seq<u8>
    decreases bytes.len(),
{
    if bytes.len() == 0 {
        Seq::empty()
    } else if bytes.len() <= 3 {
        encoded_group(bytes)
    } else {
        encoded_group(bytes.take(3)) + base64_encoded(bytes.skip(3))
    }
}

/// `bytes` without the padding at its end.
pub open spec fn without_padding(bytes: Seq<u8>) -> Seq<u8>
    decreases bytes.len(),
{
    if bytes.len() > 0 && bytes.last() == PAD {
        without_padding(bytes.drop_last())
    } else {
        bytes
    }
}

/// The values of those bytes of `chunk` that are in the alphabet, in order.
pub open spec fn sextets_in(chunk: Seq<u8>) -> Seq<u8>
    decreases chunk.len(),
{
    if chunk.len() == 0 {
        Seq::empty()
    } else {
        let head = sextets_in(chunk.drop_last());
        match sextet_of(chunk.last()) {
            Some(v) => head.push(v),
            None => head,
        }
    }
}

/// The bytes that up to four values stand for: none for fewer than two
/// values, then one byte for each value more.
pub open spec fn decoded_group(s: Seq<u8>) -> Seq<u8> {
    if s.len() < 2 {
        Seq::empty()
    } else {
        let b0 = ((s[0] % 64) * 4 + s[1] / 16) as u8;
        if s.len() == 2 {
            seq![b0]
        } else {
            let b1 = ((s[1] % 16) * 16 + s[2] / 4) as u8;
            if s.len() == 3 {
                seq![b0, b1]
            } else {
                seq![b0, b1, ((s[2] % 4) * 64 + s[3]) as u8]
            }
        }
    }
}

/// What the bytes decode to, four at a time.
pub open spec fn decoded_chunks(bytes: Seq<u8>) -> Seq<u8>
    decreases bytes.len(),
{
    if bytes.len() == 0 {
        Seq::empty()
    } else if bytes.len() <= 4 {
        decoded_group(sextets_in(bytes))
    } else {
        decoded_group(sextets_in(bytes.take(4))) + decoded_chunks(bytes.skip(4))
    }
}

/// What a text with the given bytes decodes to.
pub open spec fn base64_decoded(bytes: Seq<u8>) -> Seq<u8> {
    decoded_chunks(without_padding(bytes))
}

/// The text whose characters have the given ASCII codes.
pub open spec fn ascii_text(bytes: Seq<u8>) -> Seq<char> {
    Seq::new(bytes.len(), |i: int| bytes[i] as char)
}

/// Every byte is an ASCII code.
pub open spec fn all_ascii(bytes: Seq<u8>) -> bool {
    forall|i: int| 0 <= i < bytes.len() ==> #[trigger] bytes[i] < 128
}

fn alphabet(v: u8) -> (r: u8)
    requires
        v < 64,
    ensures
        r == sextet_byte(v as int),
        r < 128,
        r != PAD,
        sextet_of(r) == Some(v),
{
    if v < 26 {
        65 + v
    } else if v < 52 {
        71 + v
    } else if v < 62 {
        v - 4
    } else if v == 62 {
        43
    } else {
        47
    }
}

fn value_of(b: u8) -> (r: Option<u8>)
    ensures
        r == sextet_of(b),
        r matches Some(v) ==> v < 64,
{
    if 65 <= b && b <= 90 {
        Some(b - 65)
    } else if 97 <= b && b <= 122 {
        Some(b - 71)
    } else if 48 <= b && b <= 57 {
        Some(b + 4)
    } else if b == 43 {
        Some(62)
    } else if b == 47 {
        Some(63)
    } else {
        None
    }
}

/// The text whose characters have the given ASCII codes.
fn text_of_ascii(bytes: &[u8]) -> (r: String)
    requires
        all_ascii(bytes@),
    ensures
        r@ == ascii_text(bytes@),
        encode_utf8(r@) == bytes@,
{
    let mut out = String::new();
    let mut i: usize = 0;
    while i < bytes.len()
        invariant
            i <= bytes.len(),
            all_ascii(bytes@),
            out@ == ascii_text(bytes@.take(i as int)),
        decreases bytes.len() - i,
    {
        let b = bytes[i];
        out.push(b as char);
        i += 1;
    }
    proof {
        assert(bytes@.take(i as int) =~= bytes@);
        lemma_ascii_text_bytes(bytes@);
    }
    out
}

/// A text of ASCII codes has those codes as its UTF-8 bytes.
pub proof fn lemma_ascii_text_bytes(bytes: Seq<u8>)
    requires
        all_ascii(bytes),
    ensures
        is_ascii_chars(ascii_text(bytes)),
        encode_utf8(ascii_text(bytes)) == bytes,
{
    let text = ascii_text(bytes);
    assert(is_ascii_chars(text));
    is_ascii_chars_encode_utf8(text);
}

/// An encoding consists of ASCII codes.
pub proof fn lemma_encoded_is_ascii(bytes: Seq<u8>)
    ensures
        all_ascii(base64_encoded(bytes)),
    decreases bytes.len(),
{
    if bytes.len() > 3 {
        lemma_encoded_is_ascii(bytes.skip(3));
    }
}

/// Encodes a text in Base64.
pub fn base64_encode(input: &str) -> (r: String)
    ensures
        r@ == ascii_text(base64_encoded(encode_utf8(input@))),
        encode_utf8(r@) == base64_encoded(encode_utf8(input@)),
{
    let bytes = input.as_bytes();
    let mut out: Vec<u8> = Vec::new();
    let mut i: usize = 0;
    assert(bytes@.skip(0) =~= bytes@);
    while i < bytes.len()
        invariant
            i <= bytes.len(),
            out@ + base64_encoded(bytes@.skip(i as int)) == base64_encoded(bytes@),
        decreases bytes.len() - i,
    {
        let n: usize = if bytes.len() - i >= 3 {
            3
        } else {
            bytes.len() - i
        };
        let ghost rest = bytes@.skip(i as int);
        let b0 = bytes[i];
        let b1 = if n > 1 {
            bytes[i + 1]
        } else {
            0
        };
        let b2 = if n > 2 {
            bytes[i + 2]
        } else {
            0
        };
        out.push(alphabet(b0 / 4));
        out.push(alphabet((b0 % 4) * 16 + b1 / 16));
        out.push(
            if n > 1 {
                alphabet((b1 % 16) * 4 + b2 / 64)
            } else {
                PAD
            },
        );
        out.push(
            if n > 2 {
                alphabet(b2 % 64)
            } else {
                PAD
            },
        );
        proof {
            if rest.len() > 3 {
                assert(rest.skip(3) =~= bytes@.skip(i + 3));
            }
        }
        i += n;
    }
    proof {
        lemma_encoded_is_ascii(bytes@);
    }
    text_of_ascii(out.as_slice())
}

/// Decodes a text in Base64, leniently.
pub fn base64_decode(input: &str) -> (r: Vec<u8>)
    ensures
        r@ == base64_decoded(encode_utf8(input@)),
{
    let bytes = input.as_bytes();
    let mut end: usize = bytes.len();
    assert(bytes@.take(end as int) =~= bytes@);
    while end > 0 && bytes[end - 1] == PAD
        invariant
            end <= bytes.len(),
            without_padding(bytes@) == without_padding(bytes@.take(end as int)),
        decreases end,
    {
        assert(bytes@.take(end as int).drop_last() =~= bytes@.take(end - 1));
        end -= 1;
    }
    let ghost bare = bytes@.take(end as int);
    let mut out: Vec<u8> = Vec::new();
    let mut i: usize = 0;
    assert(bare.skip(0) =~= bare);
    while i < end
        invariant
            i <= end <= bytes.len(),
            bare == bytes@.take(end as int),
            out@ + decoded_chunks(bare.skip(i as int)) == decoded_chunks(bare),
        decreases end - i,
    {
        let n: usize = if end - i >= 4 {
            4
        } else {
            end - i
        };
        let ghost rest = bare.skip(i as int);
        let ghost chunk = if rest.len() <= 4 {
            rest
        } else {
            rest.take(4)
        };
        let mut vals: [u8; 4] = [0, 0, 0, 0];
        let mut count: usize = 0;
        let mut k: usize = 0;
        while k < n
            invariant
                k <= n <= 4,
                i + n <= end <= bytes.len(),
                bare == bytes@.take(end as int),
                chunk.len() == n,
                forall|j: int| 0 <= j < n ==> chunk[j] == bytes@[i + j],
                count <= k,
                count == sextets_in(chunk.take(k as int)).len(),
                forall|j: int| 0 <= j < count ==> vals@[j] == sextets_in(chunk.take(k as int))[j],
                forall|j: int| 0 <= j < count ==> vals@[j] < 64,
            decreases n - k,
        {
            proof {
                assert(chunk.take(k + 1).drop_last() =~= chunk.take(k as int));
            }
            match value_of(bytes[i + k]) {
                Some(v) => {
                    vals[count] = v;
                    count += 1;
                },
                None => {},
            }
            k += 1;
        }
        proof {
            assert(chunk.take(n as int) =~= chunk);
        }
        if count >= 2 {
            out.push((vals[0] % 64) * 4 + vals[1] / 16);
        }
        if count >= 3 {
            out.push((vals[1] % 16) * 16 + vals[2] / 4);
        }
        if count >= 4 {
            out.push((vals[2] % 4) * 64 + vals[3]);
        }
        proof {
            if rest.len() > 4 {
                assert(rest.skip(4) =~= bare.skip(i + 4));
            }
        }
        i += n;
    }
    out
}

/// The encoding of `bytes` without the padding at its end.
pub open spec fn base64_bare(bytes: Seq<u8>) -> Seq<u8>
    decreases bytes.len(),
{
    if bytes.len() == 0 {
        Seq::empty()
    } else if bytes.len() <= 3 {
        encoded_group(bytes).take(bytes.len() as int + 1)
    } else {
        encoded_group(bytes.take(3)) + base64_bare(bytes.skip(3))
    }
}

proof fn lemma_without_padding_concat(a: Seq<u8>, b: Seq<u8>)
    requires
        without_padding(b).len() > 0,
    ensures
        without_padding(a + b) == a + without_padding(b),
    decreases b.len(),
{
    if b.last() == PAD {
        assert((a + b).drop_last() =~= a + b.drop_last());
        lemma_without_padding_concat(a, b.drop_last());
    }
}

proof fn lemma_without_padding_of_encoding(bytes: Seq<u8>)
    ensures
        without_padding(base64_encoded(bytes)) == base64_bare(bytes),
        bytes.len() > 0 ==> base64_bare(bytes).len() >= 2,
    decreases bytes.len(),
{
    let e = encoded_group(bytes);
    if bytes.len() == 1 {
        assert(without_padding(e.take(3)) == without_padding(e.take(3).drop_last()));
    } else if bytes.len() == 2 {
        assert(without_padding(e) == without_padding(e.drop_last()));
    } else if bytes.len() > 3 {
        lemma_without_padding_of_encoding(bytes.skip(3));
        lemma_without_padding_concat(
            encoded_group(bytes.take(3)),
            base64_encoded(bytes.skip(3)),
        );
    }
}

proof fn lemma_sextets_in_alphabet(vals: Seq<u8>)
    requires
        forall|i: int| 0 <= i < vals.len() ==> #[trigger] vals[i] < 64,
    ensures
        sextets_in(vals.map_values(|v: u8| sextet_byte(v as int))) == vals,
    decreases vals.len(),
{
    let chunk = vals.map_values(|v: u8| sextet_byte(v as int));
    if vals.len() > 0 {
        lemma_sextets_in_alphabet(vals.drop_last());
        assert(chunk.drop_last() =~= vals.drop_last().map_values(|v: u8| sextet_byte(v as int)));
    }
}

proof fn lemma_decode_group(g: Seq<u8>)
    requires
        1 <= g.len() <= 3,
    ensures
        decoded_group(sextets_in(encoded_group(g).take(g.len() as int + 1))) == g,
{
    let b0 = g[0];
    let b1: u8 = if g.len() > 1 {
        g[1]
    } else {
        0
    };
    let b2: u8 = if g.len() > 2 {
        g[2]
    } else {
        0
    };
    let v0 = (b0 / 4) as u8;
    let v1 = ((b0 % 4) * 16 + b1 / 16) as u8;
    let v2 = ((b1 % 16) * 4 + b2 / 64) as u8;
    let v3 = (b2 % 64) as u8;
    let all = seq![v0, v1, v2, v3];
    let vals = all.take(g.len() as int + 1);
    lemma_sextets_in_alphabet(vals);
    assert(encoded_group(g).take(g.len() as int + 1) =~= vals.map_values(
        |v: u8| sextet_byte(v as int),
    ));
}

proof fn lemma_decode_bare(bytes: Seq<u8>)
    ensures
        decoded_chunks(base64_bare(bytes)) == bytes,
    decreases bytes.len(),
{
    if 1 <= bytes.len() <= 3 {
        lemma_decode_group(bytes);
    } else if bytes.len() > 3 {
        let head = bytes.take(3);
        let tail = bytes.skip(3);
        lemma_decode_group(head);
        lemma_decode_bare(tail);
        let x = base64_bare(bytes);
        assert(x.take(4) =~= encoded_group(head));
        assert(x.skip(4) =~= base64_bare(tail));
        assert(encoded_group(head).take(4) =~= encoded_group(head));
    }
}

/// Decoding the encoding of any bytes gives the bytes back.
pub proof fn lemma_base64_round_trip(bytes: Seq<u8>)
    ensures
        base64_decoded(base64_encoded(bytes)) == bytes,
{
    lemma_without_padding_of_encoding(bytes);
    lemma_decode_bare(bytes);
}

/// Decoding the encoded text of any text gives the bytes of that text
/// back: what [`base64_decode`] returns for what [`base64_encode`] returns.
pub proof fn lemma_base64_text_round_trip(text: Seq<char>)
    ensures
        base64_decoded(encode_utf8(ascii_text(base64_encoded(encode_utf8(text))))) == encode_utf8(
            text,
        ),
{
    lemma_encoded_is_ascii(encode_utf8(text));
    lemma_ascii_text_bytes(base64_encoded(encode_utf8(text)));
    lemma_base64_round_trip(encode_utf8(text));
}

} // verus!
