//! The accent colour setting.
use vstd::prelude::*;
use vstd::string::StringSliceAdditionalSpecFns;

verus! {

/// Colour used when the setting is not a valid `#RRGGBB` (Apple system blue `#0A84FF`).
pub open spec fn fallback_color() -> Seq<u8> {
    seq![10u8, 132u8, 255u8]
}

/// The bytes after the leading `#` characters.
pub open spec fn after_hashes(b: Seq<u8>) -> Seq<u8>
    decreases b.len(),
{
    if b.len() > 0 && b[0] == 35 {
        after_hashes(b.drop_first())
    } else {
        b
    }
}

pub open spec fn hex_value(b: u8) -> Option<u8> {
    if 48 <= b && b <= 57 {
        Some((b - 48) as u8)
    } else if 97 <= b && b <= 102 {
        Some((b - 87) as u8)
    } else if 65 <= b && b <= 70 {
        Some((b - 55) as u8)
    } else {
        None
    }
}

/// `u8::from_str_radix` on two bytes in base 16: two hex digits, or `+` and one.
pub open spec fn hex_pair(b0: u8, b1: u8) -> Option<u8> {
    if b0 == 43 {
        hex_value(b1)
    } else {
        match (hex_value(b0), hex_value(b1)) {
            (Some(h), Some(l)) => Some((h * 16 + l) as u8),
            _ => None,
        }
    }
}

/// The colour a setting stands for: after the leading `#`s, six bytes read as
/// three base-16 pairs; otherwise the fallback colour.
pub open spec fn color_of(text: Seq<u8>) -> Seq<u8> {
    let t = after_hashes(text);
    if t.len() == 6 {
        match (hex_pair(t[0], t[1]), hex_pair(t[2], t[3]), hex_pair(t[4], t[5])) {
            (Some(r), Some(g), Some(b)) => seq![r, g, b],
            _ => fallback_color(),
        }
    } else {
        fallback_color()
    }
}

fn hex_value_exec(b: u8) -> (res: Option<u8>)
    ensures
        res == hex_value(b),
{
    if 48 <= b && b <= 57 {
        Some(b - 48)
    } else if 97 <= b && b <= 102 {
        Some(b - 87)
    } else if 65 <= b && b <= 70 {
        Some(b - 55)
    } else {
        None
    }
}

fn hex_pair_exec(b0: u8, b1: u8) -> (res: Option<u8>)
    ensures
        res == hex_pair(b0, b1),
{
    if b0 == 43 {
        hex_value_exec(b1)
    } else {
        match (hex_value_exec(b0), hex_value_exec(b1)) {
            (Some(h), Some(l)) => Some(h * 16 + l),
            _ => None,
        }
    }
}

proof fn lemma_after_hashes_skip(b: Seq<u8>, i: int)
    requires
        0 <= i <= b.len(),
        forall|k: int| 0 <= k < i ==> b[k] == 35,
    ensures
        after_hashes(b) == after_hashes(b.skip(i)),
    decreases i,
{
    if i > 0 {
        lemma_after_hashes_skip(b.drop_first(), i - 1);
        assert(b.drop_first().skip(i - 1) =~= b.skip(i));
    } else {
        assert(b.skip(0) =~= b);
    }
}

/// Parses a colour `#RRGGBB` (or `RRGGBB`); on anything else, non-ASCII text
/// among it, gives `#0A84FF`.
pub fn parse_hex(s: &str) -> (res: [u8; 3])
    ensures
        res@ == color_of(s.spec_bytes()),
{
    let b = s.as_bytes();
    let mut i: usize = 0;
    while i < b.len() && b[i] == 35
        invariant
            i <= b@.len(),
            forall|k: int| 0 <= k < i ==> b@[k] == 35,
        decreases b@.len() - i,
    {
        i = i + 1;
    }
    proof {
        lemma_after_hashes_skip(b@, i as int);
        let t = b@.skip(i as int);
        if t.len() > 0 {
            assert(t[0] == b@[i as int]);
        }
        assert(after_hashes(t) == t);
    }
    let fallback: [u8; 3] = [10, 132, 255];
    proof {
        assert(fallback@ =~= fallback_color());
    }
    if b.len() - i != 6 {
        return fallback;
    }
    let r = hex_pair_exec(b[i], b[i + 1]);
    let g = hex_pair_exec(b[i + 2], b[i + 3]);
    let bl = hex_pair_exec(b[i + 4], b[i + 5]);
    match (r, g, bl) {
        (Some(r), Some(g), Some(bl)) => {
            let out: [u8; 3] = [r, g, bl];
            proof {
                assert(out@ =~= seq![r, g, bl]);
            }
            out
        },
        _ => fallback,
    }
}

} // verus!
