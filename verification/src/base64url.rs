//! Base64URL without padding (alphabet `A-Z a-z 0-9 - _`), as used by share codes.
//!
//! Encoding takes bytes three at a time; a final group of one or two bytes gives
//! two or three characters. Decoding first drops every byte outside the alphabet
//! (stray white space or markup pasted along with a code), then reads groups of
//! four characters.
use vstd::prelude::*;
use crate::text::{char_from_ascii, string_of};
use vstd::string::StringSliceAdditionalSpecFns;
use vstd::utf8::{encode_utf8, is_ascii_chars, is_ascii_chars_encode_utf8};

verus! {

broadcast use vstd::string::group_string_axioms;

/// Character of a 6-bit value.
pub open spec fn b64_char(v: u32) -> char {
    if v < 26 {
        ((v + 65) as u32) as char
    } else if v < 52 {
        ((v - 26 + 97) as u32) as char
    } else if v < 62 {
        ((v - 52 + 48) as u32) as char
    } else if v == 62 {
        '-'
    } else {
        '_'
    }
}

/// Bytes of the alphabet.
pub open spec fn in_alphabet(c: u8) -> bool {
    (65 <= c && c <= 90) || (97 <= c && c <= 122) || (48 <= c && c <= 57) || c == 45 || c == 95
}

/// 6-bit value of a byte of the alphabet.
pub open spec fn b64_value(c: u8) -> u32 {
    if 65 <= c && c <= 90 {
        (c - 65) as u32
    } else if 97 <= c && c <= 122 {
        (c - 97 + 26) as u32
    } else if 48 <= c && c <= 57 {
        (c - 48 + 52) as u32
    } else if c == 45 {
        62
    } else {
        63
    }
}

/// The 24-bit group of up to three bytes (missing bytes count as zero).
pub open spec fn group_of(chunk: Seq<u8>) -> u32 {
    let b0 = chunk[0] as u32;
    let b1 = if chunk.len() > 1 {
        chunk[1] as u32
    } else {
        0u32
    };
    let b2 = if chunk.len() > 2 {
        chunk[2] as u32
    } else {
        0u32
    };
    (b0 << 16u32) | (b1 << 8u32) | b2
}

/// Characters for one group of one to three bytes.
pub open spec fn encode_group(chunk: Seq<u8>) -> Seq<char> {
    let i = group_of(chunk);
    let head = seq![b64_char((i >> 18u32) & 63u32), b64_char((i >> 12u32) & 63u32)];
    let mid = if chunk.len() > 1 {
        seq![b64_char((i >> 6u32) & 63u32)]
    } else {
        Seq::<char>::empty()
    };
    let tail = if chunk.len() > 2 {
        seq![b64_char(i & 63u32)]
    } else {
        Seq::<char>::empty()
    };
    head + mid + tail
}

/// Base64URL text of `bytes`, without padding.
pub open spec fn encoded(bytes: Seq<u8>) -> Seq<char>
    decreases bytes.len(),
{
    if bytes.len() == 0 {
        Seq::empty()
    } else if bytes.len() <= 3 {
        encode_group(bytes)
    } else {
        encode_group(bytes.take(3)) + encoded(bytes.skip(3))
    }
}

/// The bytes of `text` that belong to the alphabet, in order.
pub open spec fn alphabet_only(text: Seq<u8>) -> Seq<u8>
    decreases text.len(),
{
    if text.len() == 0 {
        Seq::empty()
    } else if in_alphabet(text.last()) {
        alphabet_only(text.drop_last()).push(text.last())
    } else {
        alphabet_only(text.drop_last())
    }
}

/// The 24-bit group of up to four characters (missing ones count as zero).
pub open spec fn group_of_chars(chunk: Seq<u8>) -> u32 {
    let v0 = b64_value(chunk[0]);
    let v1 = if chunk.len() > 1 {
        b64_value(chunk[1])
    } else {
        0u32
    };
    let v2 = if chunk.len() > 2 {
        b64_value(chunk[2])
    } else {
        0u32
    };
    let v3 = if chunk.len() > 3 {
        b64_value(chunk[3])
    } else {
        0u32
    };
    (v0 << 18u32) | (v1 << 12u32) | (v2 << 6u32) | v3
}

/// Bytes of one group of one to four characters: one byte, plus one for a third
/// character and one for a fourth.
pub open spec fn decode_group(chunk: Seq<u8>) -> Seq<u8> {
    let i = group_of_chars(chunk);
    let head = seq![(i >> 16u32) as u8];
    let mid = if chunk.len() > 2 {
        seq![(i >> 8u32) as u8]
    } else {
        Seq::<u8>::empty()
    };
    let tail = if chunk.len() > 3 {
        seq![i as u8]
    } else {
        Seq::<u8>::empty()
    };
    head + mid + tail
}

/// Bytes of a run of alphabet characters, read four at a time.
pub open spec fn decoded_groups(chars: Seq<u8>) -> Seq<u8>
    decreases chars.len(),
{
    if chars.len() == 0 {
        Seq::empty()
    } else if chars.len() <= 4 {
        decode_group(chars)
    } else {
        decode_group(chars.take(4)) + decoded_groups(chars.skip(4))
    }
}

/// What decoding the UTF-8 bytes `text` gives.
pub open spec fn decoded(text: Seq<u8>) -> Seq<u8> {
    decoded_groups(alphabet_only(text))
}

// ───────────── executable code ─────────────

fn b64_char_exec(v: u32) -> (res: char)
    requires
        v < 64,
    ensures
        res == b64_char(v),
{
    if v < 26 {
        char_from_ascii((v + 65) as u8)
    } else if v < 52 {
        char_from_ascii((v - 26 + 97) as u8)
    } else if v < 62 {
        char_from_ascii((v - 52 + 48) as u8)
    } else if v == 62 {
        '-'
    } else {
        '_'
    }
}

fn in_alphabet_exec(c: u8) -> (res: bool)
    ensures
        res == in_alphabet(c),
{
    (65 <= c && c <= 90) || (97 <= c && c <= 122) || (48 <= c && c <= 57) || c == 45 || c == 95
}

fn b64_value_exec(c: u8) -> (res: u32)
    ensures
        res == b64_value(c),
        res < 64,
{
    if 65 <= c && c <= 90 {
        (c - 65) as u32
    } else if 97 <= c && c <= 122 {
        (c - 97 + 26) as u32
    } else if 48 <= c && c <= 57 {
        (c - 48 + 52) as u32
    } else if c == 45 {
        62
    } else {
        63
    }
}

proof fn lemma_masked_lt_64(i: u32)
    ensures
        (i >> 18u32) & 63u32 < 64,
        (i >> 12u32) & 63u32 < 64,
        (i >> 6u32) & 63u32 < 64,
        i & 63u32 < 64,
{
    assert((i >> 18u32) & 63u32 < 64) by (bit_vector);
    assert((i >> 12u32) & 63u32 < 64) by (bit_vector);
    assert((i >> 6u32) & 63u32 < 64) by (bit_vector);
    assert(i & 63u32 < 64) by (bit_vector);
}

/// Base64URL text of `bytes`, without padding.
pub fn base64url_encode(bytes: &[u8]) -> (res: String)
    ensures
        res@ == encoded(bytes@),
{
    let mut out: Vec<char> = Vec::new();
    let n = bytes.len();
    let mut i: usize = 0;
    proof {
        assert(bytes@.skip(0) =~= bytes@);
    }
    while i < n
        invariant
            i <= n,
            n == bytes@.len(),
            encoded(bytes@) == out@ + encoded(bytes@.skip(i as int)),
        decreases n - i,
    {
        let rest = n - i;
        let ghost chunk = if rest <= 3 {
            bytes@.skip(i as int)
        } else {
            bytes@.skip(i as int).take(3)
        };
        let b0 = bytes[i] as u32;
        let b1: u32 = if rest > 1 {
            bytes[i + 1] as u32
        } else {
            0
        };
        let b2: u32 = if rest > 2 {
            bytes[i + 2] as u32
        } else {
            0
        };
        let g = (b0 << 16u32) | (b1 << 8u32) | b2;
        proof {
            assert(chunk[0] == bytes@[i as int]);
            if rest > 1 {
                assert(chunk[1] == bytes@[i + 1]);
            }
            if rest > 2 {
                assert(chunk[2] == bytes@[i + 2]);
            }
            assert(g == group_of(chunk));
            lemma_masked_lt_64(g);
        }
        let ghost before = out@;
        out.push(b64_char_exec((g >> 18u32) & 63u32));
        out.push(b64_char_exec((g >> 12u32) & 63u32));
        if rest > 1 {
            out.push(b64_char_exec((g >> 6u32) & 63u32));
        }
        if rest > 2 {
            out.push(b64_char_exec(g & 63u32));
        }
        proof {
            assert(out@ =~= before + encode_group(chunk));
        }
        if rest <= 3 {
            proof {
                assert(encoded(bytes@.skip(i as int)) == encode_group(chunk));
                assert(bytes@.skip(n as int) =~= Seq::<u8>::empty());
            }
            i = n;
        } else {
            proof {
                assert(bytes@.skip(i as int).skip(3) =~= bytes@.skip(i + 3));
            }
            i = i + 3;
        }
    }
    proof {
        assert(bytes@.skip(n as int) =~= Seq::<u8>::empty());
        assert(out@ + Seq::<char>::empty() =~= out@);
    }
    string_of(out.as_slice())
}

/// Bytes of `text` that belong to the alphabet.
fn alphabet_only_exec(text: &[u8]) -> (res: Vec<u8>)
    ensures
        res@ == alphabet_only(text@),
{
    let mut out: Vec<u8> = Vec::new();
    let mut i: usize = 0;
    while i < text.len()
        invariant
            i <= text@.len(),
            out@ == alphabet_only(text@.take(i as int)),
        decreases text@.len() - i,
    {
        let c = text[i];
        proof {
            let t = text@.take(i + 1);
            assert(t.drop_last() =~= text@.take(i as int));
            assert(t.last() == c);
        }
        if in_alphabet_exec(c) {
            out.push(c);
        }
        i = i + 1;
    }
    proof {
        assert(text@.take(text@.len() as int) =~= text@);
    }
    out
}

/// Decodes Base64URL text, skipping bytes outside the alphabet.
///
/// Every input decodes: the result is always `Some`.
pub fn base64url_decode(s: &str) -> (res: Option<Vec<u8>>)
    ensures
        res matches Some(v) && v@ == decoded(s.spec_bytes()),
{
    let filtered = alphabet_only_exec(s.as_bytes());
    let n = filtered.len();
    let mut out: Vec<u8> = Vec::new();
    let mut i: usize = 0;
    proof {
        assert(filtered@.skip(0) =~= filtered@);
    }
    while i < n
        invariant
            i <= n,
            n == filtered@.len(),
            decoded_groups(filtered@) == out@ + decoded_groups(filtered@.skip(i as int)),
        decreases n - i,
    {
        let rest = n - i;
        let ghost chunk = if rest <= 4 {
            filtered@.skip(i as int)
        } else {
            filtered@.skip(i as int).take(4)
        };
        let v0 = b64_value_exec(filtered[i]);
        let v1: u32 = if rest > 1 {
            b64_value_exec(filtered[i + 1])
        } else {
            0
        };
        let v2: u32 = if rest > 2 {
            b64_value_exec(filtered[i + 2])
        } else {
            0
        };
        let v3: u32 = if rest > 3 {
            b64_value_exec(filtered[i + 3])
        } else {
            0
        };
        let g = (v0 << 18u32) | (v1 << 12u32) | (v2 << 6u32) | v3;
        proof {
            assert(chunk[0] == filtered@[i as int]);
            if rest > 1 {
                assert(chunk[1] == filtered@[i + 1]);
            }
            if rest > 2 {
                assert(chunk[2] == filtered@[i + 2]);
            }
            if rest > 3 {
                assert(chunk[3] == filtered@[i + 3]);
            }
            assert(g == group_of_chars(chunk));
        }
        let ghost before = out@;
        out.push((g >> 16u32) as u8);
        if rest > 2 {
            out.push((g >> 8u32) as u8);
        }
        if rest > 3 {
            out.push(g as u8);
        }
        proof {
            assert(out@ =~= before + decode_group(chunk));
        }
        if rest <= 4 {
            proof {
                assert(decoded_groups(filtered@.skip(i as int)) == decode_group(chunk));
                assert(filtered@.skip(n as int) =~= Seq::<u8>::empty());
            }
            i = n;
        } else {
            proof {
                assert(filtered@.skip(i as int).skip(4) =~= filtered@.skip(i + 4));
            }
            i = i + 4;
        }
    }
    proof {
        assert(filtered@.skip(n as int) =~= Seq::<u8>::empty());
        assert(out@ + Seq::<u8>::empty() =~= out@);
    }
    Some(out)
}

// ───────────── the round trip ─────────────

/// Bytes of a run of ASCII characters.
pub open spec fn ascii_bytes(s: Seq<char>) -> Seq<u8> {
    s.map_values(|c: char| c as u8)
}

proof fn lemma_char_value(v: u32)
    requires
        v < 64,
    ensures
        (b64_char(v) as u32) < 128,
        (b64_char(v) as u8) as u32 == b64_char(v) as u32,
        in_alphabet(b64_char(v) as u8),
        b64_value(b64_char(v) as u8) == v,
{
    if v < 26 {
        assert(((v + 65) as u32) as char as u32 == v + 65);
    } else if v < 52 {
        assert(((v - 26 + 97) as u32) as char as u32 == v - 26 + 97);
    } else if v < 62 {
        assert(((v - 52 + 48) as u32) as char as u32 == v - 52 + 48);
    }
}

proof fn lemma_bits_one(b0: u32)
    requires
        b0 < 256,
    ensures
        ({
            let i = b0 << 16u32;
            let j = (((i >> 18u32) & 63u32) << 18u32) | (((i >> 12u32) & 63u32) << 12u32);
            (j >> 16u32) as u8 == b0 as u8
        }),
{
    assert(b0 < 256 ==> ({
        let i = b0 << 16u32;
        let j = (((i >> 18u32) & 63u32) << 18u32) | (((i >> 12u32) & 63u32) << 12u32);
        (j >> 16u32) as u8 == b0 as u8
    })) by (bit_vector);
}

proof fn lemma_bits_two(b0: u32, b1: u32)
    requires
        b0 < 256,
        b1 < 256,
    ensures
        ({
            let i = (b0 << 16u32) | (b1 << 8u32);
            let j = (((i >> 18u32) & 63u32) << 18u32) | (((i >> 12u32) & 63u32) << 12u32) | (((i
                >> 6u32) & 63u32) << 6u32);
            (j >> 16u32) as u8 == b0 as u8 && (j >> 8u32) as u8 == b1 as u8
        }),
{
    assert(b0 < 256 && b1 < 256 ==> ({
        let i = (b0 << 16u32) | (b1 << 8u32);
        let j = (((i >> 18u32) & 63u32) << 18u32) | (((i >> 12u32) & 63u32) << 12u32) | (((i
            >> 6u32) & 63u32) << 6u32);
        (j >> 16u32) as u8 == b0 as u8 && (j >> 8u32) as u8 == b1 as u8
    })) by (bit_vector);
}

proof fn lemma_bits_three(b0: u32, b1: u32, b2: u32)
    requires
        b0 < 256,
        b1 < 256,
        b2 < 256,
    ensures
        ({
            let i = (b0 << 16u32) | (b1 << 8u32) | b2;
            let j = (((i >> 18u32) & 63u32) << 18u32) | (((i >> 12u32) & 63u32) << 12u32) | (((i
                >> 6u32) & 63u32) << 6u32) | (i & 63u32);
            (j >> 16u32) as u8 == b0 as u8 && (j >> 8u32) as u8 == b1 as u8 && j as u8 == b2 as u8
        }),
{
    assert(b0 < 256 && b1 < 256 && b2 < 256 ==> ({
        let i = (b0 << 16u32) | (b1 << 8u32) | b2;
        let j = (((i >> 18u32) & 63u32) << 18u32) | (((i >> 12u32) & 63u32) << 12u32) | (((i
            >> 6u32) & 63u32) << 6u32) | (i & 63u32);
        (j >> 16u32) as u8 == b0 as u8 && (j >> 8u32) as u8 == b1 as u8 && j as u8 == b2 as u8
    })) by (bit_vector);
}

proof fn lemma_group_roundtrip(chunk: Seq<u8>)
    requires
        1 <= chunk.len() <= 3,
    ensures
        encode_group(chunk).len() == chunk.len() + 1,
        decode_group(ascii_bytes(encode_group(chunk))) == chunk,
        forall|k: int|
            0 <= k < encode_group(chunk).len() ==> (#[trigger] encode_group(chunk)[k] as u32) < 128
                && in_alphabet(encode_group(chunk)[k] as u8) && (encode_group(chunk)[k] as u8) as u32
                == encode_group(chunk)[k] as u32,
{
    let i = group_of(chunk);
    lemma_masked_lt_64(i);
    let d0 = (i >> 18u32) & 63u32;
    let d1 = (i >> 12u32) & 63u32;
    let d2 = (i >> 6u32) & 63u32;
    let d3 = i & 63u32;
    lemma_char_value(d0);
    lemma_char_value(d1);
    lemma_char_value(d2);
    lemma_char_value(d3);
    let e = encode_group(chunk);
    let a = ascii_bytes(e);
    assert(a[0] == b64_char(d0) as u8);
    assert(a[1] == b64_char(d1) as u8);
    let b0 = chunk[0] as u32;
    if chunk.len() == 1 {
        assert(i == b0 << 16u32 | 0u32 << 8u32 | 0u32);
        assert(b0 << 16u32 | 0u32 << 8u32 | 0u32 == b0 << 16u32) by (bit_vector);
        assert(group_of_chars(a) == (d0 << 18u32) | (d1 << 12u32) | (0u32 << 6u32) | 0u32);
        assert((d0 << 18u32) | (d1 << 12u32) | (0u32 << 6u32) | 0u32 == (d0 << 18u32) | (d1
            << 12u32)) by (bit_vector);
        lemma_bits_one(b0);
        assert(decode_group(a) =~= chunk);
    } else if chunk.len() == 2 {
        let b1 = chunk[1] as u32;
        assert(a[2] == b64_char(d2) as u8);
        assert(i == b0 << 16u32 | b1 << 8u32 | 0u32);
        assert(b0 << 16u32 | b1 << 8u32 | 0u32 == b0 << 16u32 | b1 << 8u32) by (bit_vector);
        assert(group_of_chars(a) == (d0 << 18u32) | (d1 << 12u32) | (d2 << 6u32) | 0u32);
        assert((d0 << 18u32) | (d1 << 12u32) | (d2 << 6u32) | 0u32 == (d0 << 18u32) | (d1
            << 12u32) | (d2 << 6u32)) by (bit_vector);
        lemma_bits_two(b0, b1);
        assert(decode_group(a) =~= chunk);
    } else {
        let b1 = chunk[1] as u32;
        let b2 = chunk[2] as u32;
        assert(a[2] == b64_char(d2) as u8);
        assert(a[3] == b64_char(d3) as u8);
        lemma_bits_three(b0, b1, b2);
        assert(decode_group(a) =~= chunk);
    }
}

proof fn lemma_decode_encoded(b: Seq<u8>)
    ensures
        decoded_groups(ascii_bytes(encoded(b))) == b,
        forall|k: int|
            0 <= k < encoded(b).len() ==> (#[trigger] encoded(b)[k] as u32) < 128 && in_alphabet(
                encoded(b)[k] as u8,
            ) && (encoded(b)[k] as u8) as u32 == encoded(b)[k] as u32,
    decreases b.len(),
{
    if b.len() == 0 {
        assert(ascii_bytes(encoded(b)) =~= Seq::<u8>::empty());
        assert(b =~= Seq::<u8>::empty());
    } else if b.len() <= 3 {
        lemma_group_roundtrip(b);
    } else {
        let g = b.take(3);
        let r = b.skip(3);
        lemma_group_roundtrip(g);
        lemma_decode_encoded(r);
        let eg = encode_group(g);
        let er = encoded(r);
        assert(encoded(b) == eg + er);
        let a = ascii_bytes(eg + er);
        assert(a =~= ascii_bytes(eg) + ascii_bytes(er));
        assert(a.take(4) =~= ascii_bytes(eg));
        assert(a.skip(4) =~= ascii_bytes(er));
        if er.len() == 0 {
            assert(r.len() > 0);
            assert(er.len() > 0) by {
                if r.len() <= 3 {
                    lemma_group_roundtrip(r);
                } else {
                    lemma_group_roundtrip(r.take(3));
                }
            }
        }
        assert(decoded_groups(a) == decode_group(a.take(4)) + decoded_groups(a.skip(4)));
        assert(g + r =~= b);
        assert forall|k: int| 0 <= k < encoded(b).len() implies (#[trigger] encoded(b)[k] as u32)
            < 128 && in_alphabet(encoded(b)[k] as u8) && (encoded(b)[k] as u8) as u32
            == encoded(b)[k] as u32 by {
            if k < eg.len() {
                assert(encoded(b)[k] == eg[k]);
            } else {
                assert(encoded(b)[k] == er[k - eg.len()]);
            }
        }
    }
}

proof fn lemma_alphabet_only_keeps(t: Seq<u8>)
    requires
        forall|k: int| 0 <= k < t.len() ==> in_alphabet(#[trigger] t[k]),
    ensures
        alphabet_only(t) == t,
    decreases t.len(),
{
    if t.len() > 0 {
        lemma_alphabet_only_keeps(t.drop_last());
        assert(t.drop_last().push(t.last()) =~= t);
    }
}

pub proof fn lemma_ascii_char_pub(c: char)
    requires
        (c as u32) < 128,
    ensures
        '\0' <= c <= '\u{7f}',
{
}

/// Decoding the text that encoding gives returns the same bytes: share codes
/// survive the trip through text.
pub proof fn base64url_round_trip(bytes: Seq<u8>)
    ensures
        decoded(encode_utf8(encoded(bytes))) == bytes,
{
    let e = encoded(bytes);
    lemma_decode_encoded(bytes);
    assert(is_ascii_chars(e)) by {
        assert forall|k: int| 0 <= k < e.len() implies '\0' <= #[trigger] e[k] <= '\u{7f}' by {
            lemma_ascii_char_pub(e[k]);
        }
    }
    is_ascii_chars_encode_utf8(e);
    let u = encode_utf8(e);
    assert(u =~= ascii_bytes(e));
    lemma_alphabet_only_keeps(u);
}

/// Encoded text uses only the URL-safe alphabet, so it needs no escaping.
pub proof fn base64url_alphabet(bytes: Seq<u8>)
    ensures
        forall|k: int|
            0 <= k < encoded(bytes).len() ==> (#[trigger] encoded(bytes)[k] as u32) < 128
                && in_alphabet(encoded(bytes)[k] as u8) && (encoded(bytes)[k] as u8) as u32
                == encoded(bytes)[k] as u32,
{
    lemma_decode_encoded(bytes);
}

} // verus!
