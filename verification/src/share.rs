//! Preset share codes.
//!
//! A share code is `LCP1-` followed by the URL-safe Base64 (no padding) of the
//! gzip-compressed JSON payload. Decoding trims the pasted text, refuses empty
//! and over-long codes and a wrong prefix, skips characters outside the Base64
//! alphabet, and inflates the rest. Presets taken in under a name that is
//! already used get ` (2)`, ` (3)`, … appended, so no local preset is replaced.
use vstd::prelude::*;
use vstd::utf8::encode_utf8;
use crate::json::{json_eq, json_same, member, Json};
use crate::base64url::{
    base64url_alphabet, base64url_decode, base64url_encode, base64url_round_trip, decoded,
    encoded, in_alphabet, lemma_ascii_char_pub,
};
use crate::text::{
    chars_of, dec, fmt_u64, is_white_space, join, join_exec, push_str, slice_sub,
    str_starts_with, starts_with, string_from, string_of, trim, trim_end, trim_start, trim_vec,
    views, names_of,
};

verus! {

/// The format prefix of a share code (a new format takes a new number).
pub const SHARE_PREFIX: &'static str = "LCP1-";

/// Longest share code accepted, in bytes of the trimmed text.
pub const SHARE_CODE_MAX: usize = 64 * 1024;

// ───────────── gzip (flate2) ─────────────

/// The gzip stream that `flate2::write::GzEncoder` at the default level writes
/// for `data`; none when it reports an error.
pub uninterp spec fn gzip_bytes(data: Seq<u8>) -> Option<Seq<u8>>;

/// What `flate2::read::GzDecoder` reads out of `data`; none when it reports an
/// error (not a gzip stream, corrupt, truncated).
pub uninterp spec fn gunzip_bytes(data: Seq<u8>) -> Option<Seq<u8>>;

/// `flate2::write::GzEncoder::new(Vec::new(), Compression::default())`, then
/// `write_all` and `finish`.
///
/// Claimed: the result is the named stream, and reading it back with
/// `GzDecoder` gives `data` (the encoder and decoder are the two directions of
/// one format; the header is fixed, with no time stamp). Nothing is claimed of
/// the error text.
#[verifier::external_body]
fn gzip(data: &[u8]) -> (res: Result<Vec<u8>, String>)
    ensures
        match res {
            Ok(z) => gzip_bytes(data@) == Some(z@),
            Err(_) => gzip_bytes(data@) is None,
        },
        res matches Ok(z) ==> gunzip_bytes(z@) == Some(data@),
{
    let mut enc = flate2::write::GzEncoder::new(Vec::new(), flate2::Compression::default());
    match std::io::Write::write_all(&mut enc, data) {
        Ok(()) => {},
        Err(e) => {
            return Err(e.to_string());
        },
    }
    match enc.finish() {
        Ok(z) => Ok(z),
        Err(e) => Err(e.to_string()),
    }
}

/// `flate2::read::GzDecoder::new(data)` read to its end.
///
/// Claimed: the result is the named one.
#[verifier::external_body]
fn gunzip(data: &[u8]) -> (res: Option<Vec<u8>>)
    ensures
        match res {
            Some(v) => gunzip_bytes(data@) == Some(v@),
            None => gunzip_bytes(data@) is None,
        },
{
    let mut dec = flate2::read::GzDecoder::new(data);
    let mut out: Vec<u8> = Vec::new();
    match std::io::Read::read_to_end(&mut dec, &mut out) {
        Ok(_) => Some(out),
        Err(_) => None,
    }
}

// ───────────── the code around the payload ─────────────

/// Why a pasted text is no share code.
#[derive(Clone, Copy, Debug, PartialEq, Eq, Structural)]
pub enum ShareCodeError {
    /// Nothing but white space.
    Empty,
    /// Longer than `SHARE_CODE_MAX` bytes.
    TooLong,
    /// Does not start with `SHARE_PREFIX`.
    BadPrefix,
    /// The Base64 text does not decode.
    BadBase64,
    /// The decoded bytes are no gzip stream.
    BadGzip,
}

impl ShareCodeError {
    /// The short reason word (`empty`, `too-long`, `bad-prefix`, `bad-base64`,
    /// `bad-gzip`).
    pub fn reason(&self) -> (res: &'static str)
        ensures
            res@ == match *self {
                ShareCodeError::Empty => "empty"@,
                ShareCodeError::TooLong => "too-long"@,
                ShareCodeError::BadPrefix => "bad-prefix"@,
                ShareCodeError::BadBase64 => "bad-base64"@,
                ShareCodeError::BadGzip => "bad-gzip"@,
            },
    {
        match *self {
            ShareCodeError::Empty => "empty",
            ShareCodeError::TooLong => "too-long",
            ShareCodeError::BadPrefix => "bad-prefix",
            ShareCodeError::BadBase64 => "bad-base64",
            ShareCodeError::BadGzip => "bad-gzip",
        }
    }
}

/// The share code of a JSON payload, when it compresses.
pub open spec fn share_code_of(json: Seq<u8>) -> Option<Seq<char>> {
    match gzip_bytes(json) {
        Some(z) => Some(SHARE_PREFIX@ + encoded(z)),
        None => None,
    }
}

/// The JSON payload held by a pasted text, or why there is none.
pub open spec fn share_payload(code: Seq<char>) -> Result<Seq<u8>, ShareCodeError> {
    let t = trim(code);
    if t.len() == 0 {
        Err(ShareCodeError::Empty)
    } else if encode_utf8(t).len() > SHARE_CODE_MAX {
        Err(ShareCodeError::TooLong)
    } else if !starts_with(t, SHARE_PREFIX@) {
        Err(ShareCodeError::BadPrefix)
    } else {
        match gunzip_bytes(decoded(encode_utf8(t.skip(SHARE_PREFIX@.len() as int)))) {
            Some(json) => Ok(json),
            None => Err(ShareCodeError::BadGzip),
        }
    }
}

/// Whether the UTF-8 form of `s` is longer than `cap` bytes.
fn utf8_longer_than(s: &[char], cap: usize) -> (res: bool)
    ensures
        res == (encode_utf8(s@).len() > cap),
{
    let mut count: usize = 0;
    let mut i: usize = 0;
    proof {
        assert(s@.skip(0) =~= s@);
    }
    while i < s.len()
        invariant
            i <= s@.len(),
            count <= cap,
            count + encode_utf8(s@.skip(i as int)).len() == encode_utf8(s@).len(),
        decreases s@.len() - i,
    {
        let u = s[i] as u32;
        let w: usize = if u < 0x80 {
            1
        } else if u < 0x800 {
            2
        } else if u < 0x10000 {
            3
        } else {
            4
        };
        proof {
            let t = s@.skip(i as int);
            assert(t.drop_first() =~= s@.skip(i + 1));
            assert(t[0] == s@[i as int]);
            vstd::utf8::char_is_scalar(s@[i as int]);
            assert(vstd::utf8::encode_scalar(u).len() == w);
        }
        if w > cap - count {
            return true;
        }
        count = count + w;
        i = i + 1;
    }
    proof {
        assert(s@.skip(i as int).len() == 0);
    }
    false
}

proof fn lemma_trim_id(s: Seq<char>)
    requires
        s.len() > 0,
        !is_white_space(s[0]),
        !is_white_space(s.last()),
    ensures
        trim(s) == s,
{
    assert(trim_start(s) == s);
    assert(trim_end(s) == s);
}

/// Wraps a JSON payload into a share code: gzip, URL-safe Base64, prefix.
/// Fails only where the compression reports an error. A code that it gives and
/// that is not over `SHARE_CODE_MAX` bytes decodes back to the payload.
pub fn encode_share_frame(json: &[u8]) -> (res: Result<String, String>)
    ensures
        match res {
            Ok(c) => share_code_of(json@) == Some(c@),
            Err(_) => share_code_of(json@) is None,
        },
        res matches Ok(c) ==> (encode_utf8(c@).len() <= SHARE_CODE_MAX ==> share_payload(c@)
            == Ok::<Seq<u8>, ShareCodeError>(json@)),
{
    let z = match gzip(json) {
        Ok(z) => z,
        Err(e) => {
            return Err(e);
        },
    };
    let text = base64url_encode(z.as_slice());
    let mut code = string_from(SHARE_PREFIX);
    push_str(&mut code, text.as_str());
    proof {
        reveal_strlit("LCP1-");
        let e = encoded(z@);
        let c = code@;
        assert(c == SHARE_PREFIX@ + e);
        base64url_alphabet(z@);
        base64url_round_trip(z@);
        assert(c[0] == 'L');
        if e.len() > 0 {
            assert(c.last() == e.last());
            let ch = e[e.len() - 1];
            assert((ch as u32) < 128 && in_alphabet(ch as u8) && (ch as u8) as u32 == ch as u32);
            assert(!is_white_space(ch));
        } else {
            assert(c.last() == '-');
        }
        lemma_trim_id(c);
        assert(c.skip(SHARE_PREFIX@.len() as int) =~= e);
        assert(starts_with(c, SHARE_PREFIX@)) by {
            assert(c.take(SHARE_PREFIX@.len() as int) =~= SHARE_PREFIX@);
        }
    }
    Ok(code)
}

/// Takes the JSON payload out of a pasted share code (see `share_payload`).
pub fn decode_share_frame(code: &str) -> (res: Result<Vec<u8>, ShareCodeError>)
    ensures
        match res {
            Ok(v) => share_payload(code@) == Ok::<Seq<u8>, ShareCodeError>(v@),
            Err(e) => share_payload(code@) == Err::<Seq<u8>, ShareCodeError>(e),
        },
{
    let cs = chars_of(code);
    let t = trim_vec(cs.as_slice());
    if t.len() == 0 {
        return Err(ShareCodeError::Empty);
    }
    if utf8_longer_than(t.as_slice(), SHARE_CODE_MAX) {
        return Err(ShareCodeError::TooLong);
    }
    if !str_starts_with(t.as_slice(), SHARE_PREFIX) {
        return Err(ShareCodeError::BadPrefix);
    }
    let plen = chars_of(SHARE_PREFIX).len();
    let body = string_of(slice_sub(t.as_slice(), plen, t.len()).as_slice());
    proof {
        assert(body@ =~= t@.skip(SHARE_PREFIX@.len() as int));
    }
    let compressed = match base64url_decode(body.as_str()) {
        Some(v) => v,
        None => {
            return Err(ShareCodeError::BadBase64);
        },
    };
    match gunzip(compressed.as_slice()) {
        Some(json) => Ok(json),
        None => Err(ShareCodeError::BadGzip),
    }
}

// ───────────── names of presets taken in ─────────────

/// The `k`-th name tried for a preset called `name`: the name itself, then
/// `name (2)`, `name (3)`, ….
pub open spec fn name_candidate(name: Seq<char>, k: nat) -> Seq<char> {
    if k <= 1 {
        name
    } else {
        name + " ("@ + dec(k) + ")"@
    }
}

/// `k` is the first try whose name is not taken.
pub open spec fn first_free(name: Seq<char>, taken: Seq<Seq<char>>, k: nat) -> bool {
    &&& k >= 1
    &&& !taken.contains(name_candidate(name, k))
    &&& forall|j: nat| 1 <= j < k ==> taken.contains(#[trigger] name_candidate(name, j))
}

/// The name a preset called `name` is added under, beside the names `taken`.
pub open spec fn unique_name(name: Seq<char>, taken: Seq<Seq<char>>) -> Seq<char> {
    name_candidate(name, choose|k: nat| first_free(name, taken, k))
}

proof fn lemma_dec_len(n: nat)
    ensures
        dec(n).len() >= 1,
        n >= 10 ==> dec(n).len() >= 2,
    decreases n,
{
    if n >= 10 {
        lemma_dec_len(n / 10);
    }
}

proof fn lemma_digit_char_injective(a: nat, b: nat)
    requires
        a < 10,
        b < 10,
        crate::text::digit_char(a) == crate::text::digit_char(b),
    ensures
        a == b,
{
    assert(crate::text::digit_char(a) as u32 == a + 48);
    assert(crate::text::digit_char(b) as u32 == b + 48);
}

proof fn lemma_dec_injective(a: nat, b: nat)
    requires
        dec(a) == dec(b),
    ensures
        a == b,
    decreases a,
{
    lemma_dec_len(a);
    lemma_dec_len(b);
    if a < 10 && b < 10 {
        assert(dec(a)[0] == crate::text::digit_char(a));
        assert(dec(b)[0] == crate::text::digit_char(b));
        lemma_digit_char_injective(a, b);
    } else if a >= 10 && b >= 10 {
        assert(dec(a).last() == crate::text::digit_char(a % 10));
        assert(dec(b).last() == crate::text::digit_char(b % 10));
        lemma_digit_char_injective(a % 10, b % 10);
        assert(dec(a / 10) =~= dec(a).drop_last());
        assert(dec(b / 10) =~= dec(b).drop_last());
        lemma_dec_injective(a / 10, b / 10);
    } else if a < 10 {
        assert(dec(a).len() == 1);
    } else {
        assert(dec(b).len() == 1);
    }
}

proof fn lemma_candidate_injective(name: Seq<char>, j: nat, k: nat)
    requires
        1 <= j,
        1 <= k,
        name_candidate(name, j) == name_candidate(name, k),
    ensures
        j == k,
{
    reveal_strlit(" (");
    reveal_strlit(")");
    lemma_dec_len(j);
    lemma_dec_len(k);
    if j >= 2 && k >= 2 {
        let cj = name_candidate(name, j);
        let n: int = name.len() as int + 2;
        assert(cj.subrange(n, cj.len() - 1) =~= dec(j));
        assert(name_candidate(name, k).subrange(n, cj.len() - 1) =~= dec(k));
        lemma_dec_injective(j, k);
    } else if j >= 2 {
        assert(name_candidate(name, j).len() > name.len());
    } else if k >= 2 {
        assert(name_candidate(name, k).len() > name.len());
    }
}

proof fn lemma_first_free_unique(name: Seq<char>, taken: Seq<Seq<char>>, k: nat)
    requires
        first_free(name, taken, k),
    ensures
        unique_name(name, taken) == name_candidate(name, k),
{
    let c = choose|m: nat| first_free(name, taken, m);
    assert(first_free(name, taken, c));
    if c < k {
        assert(taken.contains(name_candidate(name, c)));
    } else if k < c {
        assert(taken.contains(name_candidate(name, k)));
    }
}

fn name_taken(taken: &[String], s: &String) -> (res: bool)
    ensures
        res == names_of(taken@).contains(s@),
{
    let mut i: usize = 0;
    while i < taken.len()
        invariant
            i <= taken@.len(),
            forall|k: int| 0 <= k < i ==> taken@[k]@ != s@,
        decreases taken@.len() - i,
    {
        if taken[i] == *s {
            proof {
                assert(names_of(taken@)[i as int] == s@);
            }
            return true;
        }
        i = i + 1;
    }
    proof {
        if names_of(taken@).contains(s@) {
            let k = choose|k: int| 0 <= k < names_of(taken@).len() && names_of(taken@)[k] == s@;
            assert(taken@[k]@ == s@);
        }
    }
    false
}

fn candidate_exec(name: &str, k: u64) -> (res: String)
    ensures
        res@ == name_candidate(name@, k as nat),
{
    let mut s = string_from(name);
    if k > 1 {
        push_str(&mut s, " (");
        let d = fmt_u64(k);
        push_str(&mut s, d.as_str());
        push_str(&mut s, ")");
    }
    s
}

/// The name under which a preset called `name` is added beside the presets
/// `taken`: the name itself when free, else the first of `name (2)`,
/// `name (3)`, … that is free.
pub fn unique_preset_name(name: &str, taken: &[String]) -> (res: String)
    requires
        taken@.len() < u64::MAX,
    ensures
        res@ == unique_name(name@, names_of(taken@)),
        !names_of(taken@).contains(res@),
{
    let ghost tv = names_of(taken@);
    let ghost all = tv.to_set();
    let ghost mut used: Set<Seq<char>> = Set::empty();
    let mut k: u64 = 1;
    let mut cand = candidate_exec(name, k);
    proof {
        tv.lemma_cardinality_of_set();
        vstd::seq_lib::seq_to_set_is_finite(tv);
    }
    while name_taken(taken, &cand)
        invariant
            tv == names_of(taken@),
            all == tv.to_set(),
            all.finite(),
            all.len() <= tv.len(),
            tv.len() < u64::MAX,
            1 <= k,
            cand@ == name_candidate(name@, k as nat),
            used.finite(),
            used.len() == k - 1,
            used.subset_of(all),
            forall|j: nat| 1 <= j < k ==> tv.contains(#[trigger] name_candidate(name@, j)),
            forall|s: Seq<char>|
                used.contains(s) ==> exists|j: nat| 1 <= j < k && s == name_candidate(name@, j),
        decreases all.len() - used.len(),
    {
        proof {
            assert(all.contains(cand@));
            if used.contains(cand@) {
                let j = choose|j: nat| 1 <= j < k && cand@ == name_candidate(name@, j);
                lemma_candidate_injective(name@, j, k as nat);
            }
            let bigger = used.insert(cand@);
            assert(bigger.subset_of(all));
            vstd::set_lib::lemma_len_subset(bigger, all);
            assert(forall|s: Seq<char>|
                bigger.contains(s) ==> exists|j: nat| 1 <= j < k + 1 && s == name_candidate(name@, j))
                by {
                assert forall|s: Seq<char>| bigger.contains(s) implies exists|j: nat|
                    1 <= j < k + 1 && s == name_candidate(name@, j) by {
                    if s == cand@ {
                        assert(1 <= k < k + 1 && s == name_candidate(name@, k as nat));
                    } else {
                        assert(used.contains(s));
                    }
                }
            }
            used = bigger;
        }
        k = k + 1;
        cand = candidate_exec(name, k);
    }
    proof {
        assert(first_free(name@, tv, k as nat));
        lemma_first_free_unique(name@, tv, k as nat);
    }
    cand
}

/// The names under which the selected presets are added, in order: item `i` is
/// selected when `selected` has a `true` at `i`, and each name is made unique
/// beside `taken` and the names added before it.
pub open spec fn import_from(
    names: Seq<Seq<char>>,
    selected: Seq<bool>,
    i: int,
    taken: Seq<Seq<char>>,
) -> Seq<Seq<char>>
    decreases names.len() - i,
{
    if i < 0 || i >= names.len() {
        Seq::empty()
    } else if i < selected.len() && selected[i] {
        let n = unique_name(names[i], taken);
        seq![n] + import_from(names, selected, i + 1, taken.push(n))
    } else {
        import_from(names, selected, i + 1, taken)
    }
}

/// The names under which the selected presets of a share code are added beside
/// the local presets `existing`. None of them is a local name, and no two are
/// the same: taking presets in never replaces one.
pub fn import_names(names: &[String], selected: &[bool], existing: &[String]) -> (res: Vec<String>)
    requires
        existing@.len() + names@.len() < u64::MAX,
    ensures
        names_of(res@) == import_from(names_of(names@), selected@, 0, names_of(existing@)),
        forall|k: int| 0 <= k < res@.len() ==> !names_of(existing@).contains(#[trigger] res@[k]@),
        forall|j: int, k: int| 0 <= j < k < res@.len() ==> res@[j]@ != res@[k]@,
{
    let ghost nv = names_of(names@);
    let ghost ev = names_of(existing@);
    let mut taken: Vec<String> = Vec::new();
    let mut e: usize = 0;
    while e < existing.len()
        invariant
            e <= existing@.len(),
            ev == names_of(existing@),
            names_of(taken@) == ev.take(e as int),
        decreases existing@.len() - e,
    {
        let ghost before = names_of(taken@);
        taken.push(existing[e].clone());
        proof {
            assert(names_of(taken@) =~= before.push(existing@[e as int]@));
            assert(ev.take(e + 1) =~= ev.take(e as int).push(ev[e as int]));
        }
        e = e + 1;
    }
    proof {
        assert(ev.take(existing@.len() as int) =~= ev);
    }
    let mut out: Vec<String> = Vec::new();
    let mut i: usize = 0;
    while i < names.len()
        invariant
            i <= names@.len(),
            nv == names_of(names@),
            ev == names_of(existing@),
            names_of(taken@) == ev + names_of(out@),
            out@.len() <= i,
            existing@.len() + names@.len() < u64::MAX,
            import_from(nv, selected@, 0, ev) == names_of(out@) + import_from(
                nv,
                selected@,
                i as int,
                names_of(taken@),
            ),
            forall|k: int| 0 <= k < out@.len() ==> !ev.contains(#[trigger] out@[k]@),
            forall|j: int, k: int| 0 <= j < k < out@.len() ==> out@[j]@ != out@[k]@,
        decreases names@.len() - i,
    {
        let ghost before = names_of(out@);
        let ghost tv = names_of(taken@);
        proof {
            assert(taken@.len() == names_of(taken@).len());
        }
        if i < selected.len() && selected[i] {
            let n = unique_preset_name(names[i].as_str(), taken.as_slice());
            proof {
                assert(names[i as int]@ == nv[i as int]);
            }
            taken.push(n.clone());
            out.push(n);
            proof {
                assert(names_of(out@) =~= before.push(n@));
                assert(names_of(taken@) =~= tv.push(n@));
                assert(names_of(taken@) =~= ev + names_of(out@));
                assert(seq![n@] + import_from(nv, selected@, i + 1, tv.push(n@)) == import_from(
                    nv,
                    selected@,
                    i as int,
                    tv,
                ));
                assert(before + (seq![n@] + import_from(nv, selected@, i + 1, names_of(taken@)))
                    =~= names_of(out@) + import_from(nv, selected@, i + 1, names_of(taken@)));
                assert forall|k: int| 0 <= k < out@.len() implies !ev.contains(
                    #[trigger] out@[k]@,
                ) by {
                    if k == out@.len() - 1 {
                        if ev.contains(n@) {
                            let m = choose|m: int| 0 <= m < ev.len() && ev[m] == n@;
                            assert(tv[m] == n@);
                        }
                    } else {
                        assert(before[k] == out@[k]@);
                    }
                }
                assert forall|j: int, k: int| 0 <= j < k < out@.len() implies out@[j]@
                    != out@[k]@ by {
                    if k == out@.len() - 1 {
                        assert(tv[ev.len() + j] == before[j]);
                        assert(before[j] == out@[j]@);
                    } else {
                        assert(before[j] == out@[j]@);
                        assert(before[k] == out@[k]@);
                    }
                }
            }
        }
        i = i + 1;
    }
    proof {
        assert(import_from(nv, selected@, i as int, names_of(taken@)) =~= Seq::<Seq<char>>::empty());
        assert(names_of(out@) + Seq::<Seq<char>>::empty() =~= names_of(out@));
    }
    out
}

// ───────────── the parameters inside a payload ─────────────

/// The parameters that a shared preset carries: those that differ from the
/// default parameters (a member whose value is the default one of its key is
/// left out), in order.
pub open spec fn strip_defaults(
    params: Seq<(String, Json)>,
    defaults: Seq<(String, Json)>,
) -> Seq<(String, Json)>
    decreases params.len(),
{
    if params.len() == 0 {
        Seq::empty()
    } else {
        let rest = strip_defaults(params.drop_last(), defaults);
        let p = params.last();
        if (match member(defaults, p.0@) {
            Some(d) => json_same(p.1, d),
            None => false,
        }) {
            rest
        } else {
            rest.push(p)
        }
    }
}

/// The default members whose keys `params` lacks, in the defaults' order.
pub open spec fn missing_defaults(
    defaults: Seq<(String, Json)>,
    params: Seq<(String, Json)>,
) -> Seq<(String, Json)>
    decreases defaults.len(),
{
    if defaults.len() == 0 {
        Seq::empty()
    } else {
        let rest = missing_defaults(defaults.drop_last(), params);
        let d = defaults.last();
        if member(params, d.0@) is Some {
            rest
        } else {
            rest.push(d)
        }
    }
}

fn find_member<'a>(ms: &'a Vec<(String, Json)>, n: usize, key: &String) -> (res: Option<&'a Json>)
    requires
        n <= ms@.len(),
    ensures
        match res {
            Some(j) => member(ms@.take(n as int), key@) == Some(*j),
            None => member(ms@.take(n as int), key@) is None,
        },
{
    let ghost t = ms@.take(n as int);
    let mut i: usize = 0;
    proof {
        assert(t.skip(0) =~= t);
    }
    while i < n
        invariant
            i <= n,
            n <= ms@.len(),
            t == ms@.take(n as int),
            member(t, key@) == member(t.skip(i as int), key@),
        decreases n - i,
    {
        proof {
            assert(t.skip(i as int)[0] == ms@[i as int]);
            assert(t.skip(i as int).drop_first() =~= t.skip(i + 1));
        }
        if ms[i].0 == *key {
            return Some(&ms[i].1);
        }
        i = i + 1;
    }
    None
}

/// Leaves out of `params` the members that hold their key's default value
/// (see `strip_defaults`).
pub fn strip_default_params(
    params: Vec<(String, Json)>,
    defaults: &Vec<(String, Json)>,
) -> (res: Vec<(String, Json)>)
    ensures
        res@ == strip_defaults(params@, defaults@),
{
    let ghost orig = params@;
    let mut rest = params;
    proof {
        assert(orig.len() == rest.len());
    }
    let mut out: Vec<(String, Json)> = Vec::new();
    let mut k: usize = 0;
    proof {
        assert(orig.take(0) =~= Seq::<(String, Json)>::empty());
        assert(orig.skip(0) =~= orig);
    }
    while rest.len() > 0
        invariant
            k <= orig.len(),
            orig.len() <= usize::MAX,
            rest@ == orig.skip(k as int),
            out@ == strip_defaults(orig.take(k as int), defaults@),
        decreases rest@.len(),
    {
        let p = rest.remove(0);
        proof {
            assert(p == orig[k as int]);
            assert(orig.take(k + 1).drop_last() =~= orig.take(k as int));
            assert(orig.take(k + 1).last() == p);
            assert(rest@ =~= orig.skip(k + 1));
        }
        let keep = match find_member(defaults, defaults.len(), &p.0) {
            Some(d) => !json_eq(&p.1, d),
            None => true,
        };
        proof {
            assert(defaults@.take(defaults@.len() as int) =~= defaults@);
        }
        if keep {
            out.push(p);
        }
        k = k + 1;
    }
    proof {
        assert(orig.take(k as int) =~= orig);
    }
    out
}

/// Puts back into `params` the default members whose keys it lacks (see
/// `missing_defaults`): what a preset taken in holds.
pub fn fill_default_params(
    params: Vec<(String, Json)>,
    defaults: Vec<(String, Json)>,
) -> (res: Vec<(String, Json)>)
    ensures
        res@ == params@ + missing_defaults(defaults@, params@),
{
    let ghost p0 = params@;
    let ghost d0 = defaults@;
    let n = params.len();
    let mut out = params;
    let mut rest = defaults;
    let mut k: usize = 0;
    proof {
        assert(d0.len() == rest.len());
    }
    proof {
        assert(d0.take(0) =~= Seq::<(String, Json)>::empty());
        assert(d0.skip(0) =~= d0);
        assert(out@.take(n as int) =~= p0);
        assert(out@ =~= p0 + missing_defaults(d0.take(0), p0));
    }
    while rest.len() > 0
        invariant
            k <= d0.len(),
            d0.len() <= usize::MAX,
            n == p0.len(),
            rest@ == d0.skip(k as int),
            out@ == p0 + missing_defaults(d0.take(k as int), p0),
        decreases rest@.len(),
    {
        let d = rest.remove(0);
        proof {
            assert(d == d0[k as int]);
            assert(d0.take(k + 1).drop_last() =~= d0.take(k as int));
            assert(d0.take(k + 1).last() == d);
            assert(rest@ =~= d0.skip(k + 1));
            assert(out@.take(n as int) =~= p0);
        }
        let present = find_member(&out, n, &d.0).is_some();
        if !present {
            let ghost before = out@;
            out.push(d);
            proof {
                assert(out@ =~= p0 + missing_defaults(d0.take(k + 1), p0));
            }
        } else {
            proof {
                assert(out@ =~= p0 + missing_defaults(d0.take(k + 1), p0));
            }
        }
        k = k + 1;
    }
    proof {
        assert(d0.take(k as int) =~= d0);
    }
    out
}

/// No two members share a key (as in any parsed JSON object).
pub open spec fn keys_unique(p: Seq<(String, Json)>) -> bool {
    forall|i: int, j: int| 0 <= i < j < p.len() ==> (#[trigger] p[i]).0@ != (#[trigger] p[j]).0@
}

pub proof fn lemma_member_concat(a: Seq<(String, Json)>, b: Seq<(String, Json)>, k: Seq<char>)
    ensures
        member(a + b, k) == match member(a, k) {
            Some(x) => Some(x),
            None => member(b, k),
        },
    decreases a.len(),
{
    if a.len() > 0 {
        assert((a + b).drop_first() =~= a.drop_first() + b);
        assert((a + b)[0] == a[0]);
        lemma_member_concat(a.drop_first(), b, k);
    } else {
        assert(a + b =~= b);
    }
}

pub proof fn lemma_member_push(a: Seq<(String, Json)>, x: (String, Json), k: Seq<char>)
    ensures
        member(a.push(x), k) == match member(a, k) {
            Some(y) => Some(y),
            None => if x.0@ == k {
                Some(x.1)
            } else {
                None
            },
        },
{
    lemma_member_concat(a, seq![x], k);
    assert(a.push(x) =~= a + seq![x]);
    assert(seq![x].drop_first() =~= Seq::<(String, Json)>::empty());
    assert(member(Seq::<(String, Json)>::empty(), k) is None);
    assert(seq![x][0] == x);
}

proof fn lemma_member_absent(a: Seq<(String, Json)>, k: Seq<char>)
    requires
        forall|i: int| 0 <= i < a.len() ==> (#[trigger] a[i]).0@ != k,
    ensures
        member(a, k) is None,
    decreases a.len(),
{
    if a.len() > 0 {
        assert forall|i: int| 0 <= i < a.drop_first().len() implies (#[trigger] a.drop_first()[i]).0@
            != k by {
            assert(a.drop_first()[i] == a[i + 1]);
        }
        lemma_member_absent(a.drop_first(), k);
    }
}

proof fn lemma_member_stripped(p: Seq<(String, Json)>, d: Seq<(String, Json)>, k: Seq<char>)
    requires
        keys_unique(p),
    ensures
        member(strip_defaults(p, d), k) == match member(p, k) {
            Some(v) => if (match member(d, k) {
                Some(dv) => json_same(v, dv),
                None => false,
            }) {
                None
            } else {
                Some(v)
            },
            None => None,
        },
    decreases p.len(),
{
    if p.len() > 0 {
        let q = p.drop_last();
        let x = p.last();
        assert(p =~= q.push(x));
        assert(keys_unique(q)) by {
            assert forall|i: int, j: int| 0 <= i < j < q.len() implies (#[trigger] q[i]).0@ != (
            #[trigger] q[j]).0@ by {
                assert(q[i] == p[i] && q[j] == p[j]);
            }
        }
        lemma_member_stripped(q, d, k);
        lemma_member_push(q, x, k);
        let rest = strip_defaults(q, d);
        lemma_member_push(rest, x, k);
        if x.0@ == k {
            assert forall|i: int| 0 <= i < q.len() implies (#[trigger] q[i]).0@ != k by {
                assert(q[i] == p[i]);
                assert(p[i].0@ != p[p.len() - 1].0@);
            }
            lemma_member_absent(q, k);
        }
    }
}

proof fn lemma_member_missing(d: Seq<(String, Json)>, q: Seq<(String, Json)>, k: Seq<char>)
    requires
        member(q, k) is None,
    ensures
        member(missing_defaults(d, q), k) == member(d, k),
    decreases d.len(),
{
    if d.len() > 0 {
        let e = d.drop_last();
        let x = d.last();
        assert(d =~= e.push(x));
        lemma_member_missing(e, q, k);
        lemma_member_push(e, x, k);
        let rest = missing_defaults(e, q);
        lemma_member_push(rest, x, k);
        if x.0@ == k {
            assert(member(q, x.0@) is None);
        }
    } else {
        assert(member(d, k) is None);
    }
}

/// Leaving the defaults out and filling them back in gives each parameter
/// back: for every key of the parameters, the filled-in parameters hold that
/// very value or one the same as it (`json_same`, where it was left out for
/// equalling its default); a key the parameters lack reads as its default.
pub proof fn shared_params_round_trip(p: Seq<(String, Json)>, d: Seq<(String, Json)>, k: Seq<char>)
    requires
        keys_unique(p),
    ensures
        ({
            let back = strip_defaults(p, d) + missing_defaults(d, strip_defaults(p, d));
            match member(p, k) {
                Some(v) => member(back, k) matches Some(w) && (w == v || json_same(v, w)),
                None => member(back, k) == member(d, k),
            }
        }),
{
    let q = strip_defaults(p, d);
    lemma_member_stripped(p, d, k);
    lemma_member_concat(q, missing_defaults(d, q), k);
    if member(q, k) is None {
        lemma_member_missing(d, q, k);
    }
}

} // verus!
