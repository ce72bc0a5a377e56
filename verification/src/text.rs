//! Character-level helpers shared by the parsers and formatters of the crate.
//!
//! Strings are handled as sequences of `char` (their view); every helper here
//! states its result over that view.
use vstd::prelude::*;
use vstd::std_specs::iter::IteratorSpec;

verus! {

broadcast use vstd::string::group_string_axioms;

// ───────────── character classes ─────────────

pub open spec fn is_digit(c: char) -> bool {
    '0' <= c && c <= '9'
}

pub open spec fn is_upper(c: char) -> bool {
    'A' <= c && c <= 'Z'
}

/// ASCII lower-casing of one character (other characters are kept).
pub open spec fn lower_char(c: char) -> char {
    if is_upper(c) {
        ((c as u32) + 32) as char
    } else {
        c
    }
}

pub open spec fn lower(s: Seq<char>) -> Seq<char> {
    s.map_values(|c: char| lower_char(c))
}

/// Unicode `White_Space`, the set that `str::trim` removes.
pub open spec fn is_white_space(c: char) -> bool {
    let u = c as u32;
    ||| 0x09 <= u && u <= 0x0D
    ||| u == 0x20
    ||| u == 0x85
    ||| u == 0xA0
    ||| u == 0x1680
    ||| 0x2000 <= u && u <= 0x200A
    ||| u == 0x2028
    ||| u == 0x2029
    ||| u == 0x202F
    ||| u == 0x205F
    ||| u == 0x3000
}

pub fn char_is_digit(c: char) -> (res: bool)
    ensures
        res == is_digit(c),
{
    '0' <= c && c <= '9'
}

pub fn char_lower(c: char) -> (res: char)
    ensures
        res == lower_char(c),
{
    if 'A' <= c && c <= 'Z' {
        let u: u32 = (c as u32) + 32;
        proof {
            assert(0x61 <= u && u <= 0x7a);
        }
        char_from_ascii(u as u8)
    } else {
        c
    }
}

/// The character of an ASCII code.
pub fn char_from_ascii(b: u8) -> (res: char)
    requires
        b < 128,
    ensures
        res == (b as u32) as char,
        res as u32 == b as u32,
{
    b as char
}

pub fn char_is_white_space(c: char) -> (res: bool)
    ensures
        res == is_white_space(c),
{
    let u: u32 = c as u32;
    (0x09 <= u && u <= 0x0D) || u == 0x20 || u == 0x85 || u == 0xA0 || u == 0x1680 || (0x2000
        <= u && u <= 0x200A) || u == 0x2028 || u == 0x2029 || u == 0x202F || u == 0x205F || u
        == 0x3000
}

// ───────────── conversions between `str`, `String` and `Vec<char>` ─────────────

/// The characters of `s`, in order.
pub fn chars_of(s: &str) -> (res: Vec<char>)
    ensures
        res@ == s@,
{
    let mut out: Vec<char> = Vec::new();
    for c in it: s.chars()
        invariant
            out@ == it.seq().take(it.index() as int),
    {
        out.push(c);
    }
    out
}

/// `String::push`: appends one character.
#[verifier::external_body]
pub(crate) fn push_char(s: &mut String, c: char)
    ensures
        final(s)@ == old(s)@.push(c),
{
    s.push(c);
}

/// Appends a run of characters to `s`.
pub fn push_chars(s: &mut String, cs: &[char])
    ensures
        final(s)@ == old(s)@ + cs@,
{
    let mut i: usize = 0;
    while i < cs.len()
        invariant
            i <= cs@.len(),
            s@ == old(s)@ + cs@.take(i as int),
        decreases cs@.len() - i,
    {
        push_char(s, cs[i]);
        i = i + 1;
        proof {
            assert(cs@.take(i as int) =~= cs@.take(i - 1).push(cs@[i - 1]));
        }
    }
    proof {
        assert(cs@.take(cs@.len() as int) =~= cs@);
    }
}

/// Appends a string slice to `s`.
pub fn push_str(s: &mut String, t: &str)
    ensures
        final(s)@ == old(s)@ + t@,
{
    let cs = chars_of(t);
    push_chars(s, cs.as_slice());
}

/// A `String` made of the given characters.
pub fn string_of(cs: &[char]) -> (res: String)
    ensures
        res@ == cs@,
{
    let mut s = String::new();
    push_chars(&mut s, cs);
    s
}

/// A `String` holding a copy of `t`.
pub fn string_from(t: &str) -> (res: String)
    ensures
        res@ == t@,
{
    let mut s = String::new();
    push_str(&mut s, t);
    s
}

// ───────────── decimal formatting ─────────────

pub open spec fn digit_char(d: nat) -> char {
    ((d + 48) as u32) as char
}

/// Decimal digits of `n`, most significant first, no leading zeros.
pub open spec fn dec(n: nat) -> Seq<char>
    decreases n,
{
    if n < 10 {
        seq![digit_char(n)]
    } else {
        dec(n / 10).push(digit_char(n % 10))
    }
}

/// Decimal text of an integer, with a leading `-` when negative (as `Display` writes it).
pub open spec fn dec_int(i: int) -> Seq<char> {
    if i < 0 {
        seq!['-'] + dec((-i) as nat)
    } else {
        dec(i as nat)
    }
}

fn digits_of(n: u64) -> (res: Vec<char>)
    ensures
        res@ == dec(n as nat),
    decreases n,
{
    let d: u8 = (n % 10) as u8;
    let c = char_from_ascii(d + 48);
    if n < 10 {
        let mut v: Vec<char> = Vec::new();
        v.push(c);
        v
    } else {
        let mut v = digits_of(n / 10);
        v.push(c);
        v
    }
}

/// Decimal text of an unsigned integer.
pub fn fmt_u64(n: u64) -> (res: String)
    ensures
        res@ == dec(n as nat),
{
    let v = digits_of(n);
    string_of(v.as_slice())
}

/// Decimal text of a signed integer.
pub fn fmt_i64(n: i64) -> (res: String)
    ensures
        res@ == dec_int(n as int),
{
    if n < 0 {
        let m: u64 = (-(n as i128)) as u64;
        let mut s = String::new();
        push_char(&mut s, '-');
        let v = digits_of(m);
        push_chars(&mut s, v.as_slice());
        proof {
            assert(seq!['-'] + dec(m as nat) =~= Seq::<char>::empty().push('-') + dec(m as nat));
        }
        s
    } else {
        fmt_u64(n as u64)
    }
}


// ───────────── prefixes, suffixes, occurrences ─────────────

pub open spec fn starts_with(s: Seq<char>, p: Seq<char>) -> bool {
    p.len() <= s.len() && s.take(p.len() as int) == p
}

pub open spec fn ends_with(s: Seq<char>, p: Seq<char>) -> bool {
    p.len() <= s.len() && s.skip(s.len() - p.len()) == p
}

/// `p` occurs in `s` at position `i`.
pub open spec fn occurs_at(s: Seq<char>, p: Seq<char>, i: int) -> bool {
    0 <= i && i + p.len() <= s.len() && s.subrange(i, i + p.len()) == p
}

pub open spec fn contains(s: Seq<char>, p: Seq<char>) -> bool {
    exists|i: int| occurs_at(s, p, i)
}

/// Position of the first occurrence of `p` in `s`.
pub open spec fn first_occurrence(s: Seq<char>, p: Seq<char>) -> Option<int> {
    if contains(s, p) {
        Some(choose|i: int| occurs_at(s, p, i) && forall|j: int| 0 <= j < i ==> !occurs_at(s, p, j))
    } else {
        None
    }
}

pub fn occurs_at_exec(s: &[char], p: &[char], i: usize) -> (res: bool)
    ensures
        res == occurs_at(s@, p@, i as int),
{
    if i > s.len() || p.len() > s.len() - i {
        return false;
    }
    let mut k: usize = 0;
    while k < p.len()
        invariant
            s@.len() == s.len(),
            i + p@.len() <= s@.len(),
            k <= p@.len(),
            forall|j: int| 0 <= j < k ==> s@[i + j] == p@[j],
        decreases p@.len() - k,
    {
        if s[i + k] != p[k] {
            proof {
                assert(s@.subrange(i as int, i + p@.len())[k as int] != p@[k as int]);
            }
            return false;
        }
        k = k + 1;
    }
    proof {
        assert(s@.subrange(i as int, i + p@.len()) =~= p@);
    }
    true
}

pub fn slice_starts_with(s: &[char], p: &[char]) -> (res: bool)
    ensures
        res == starts_with(s@, p@),
{
    let r = occurs_at_exec(s, p, 0);
    proof {
        if p@.len() <= s@.len() {
            assert(s@.take(p@.len() as int) =~= s@.subrange(0, p@.len() as int));
        }
    }
    r
}

pub fn slice_ends_with(s: &[char], p: &[char]) -> (res: bool)
    ensures
        res == ends_with(s@, p@),
{
    if p.len() > s.len() {
        return false;
    }
    let r = occurs_at_exec(s, p, s.len() - p.len());
    proof {
        assert(s@.skip(s@.len() - p@.len()) =~= s@.subrange(
            s@.len() - p@.len(),
            s@.len() as int,
        ));
    }
    r
}

/// The first position at or after `from` where `p` occurs.
pub fn find_from(s: &[char], p: &[char], from: usize) -> (res: Option<usize>)
    ensures
        match res {
            Some(i) => from <= i && occurs_at(s@, p@, i as int) && forall|j: int|
                from <= j < i ==> !occurs_at(s@, p@, j),
            None => forall|j: int| from <= j ==> !occurs_at(s@, p@, j),
        },
{
    if p.len() > s.len() || from > s.len() - p.len() {
        return None;
    }
    let last = s.len() - p.len();
    let mut i: usize = from;
    loop
        invariant
            from <= i <= last,
            last == s@.len() - p@.len(),
            forall|j: int| from <= j < i ==> !occurs_at(s@, p@, j),
        decreases last - i,
    {
        if occurs_at_exec(s, p, i) {
            return Some(i);
        }
        if i == last {
            return None;
        }
        i = i + 1;
    }
}

pub proof fn lemma_first_occurrence(s: Seq<char>, p: Seq<char>, i: int)
    requires
        occurs_at(s, p, i),
        forall|j: int| 0 <= j < i ==> !occurs_at(s, p, j),
    ensures
        first_occurrence(s, p) == Some(i),
{
    assert(contains(s, p));
    let k = choose|k: int| occurs_at(s, p, k) && forall|j: int| 0 <= j < k ==> !occurs_at(s, p, j);
    assert(occurs_at(s, p, k) && forall|j: int| 0 <= j < k ==> !occurs_at(s, p, j));
    if k < i {
        assert(!occurs_at(s, p, k));
    }
    if i < k {
        assert(!occurs_at(s, p, i));
    }
}

pub proof fn lemma_first_occurrence_occurs(s: Seq<char>, p: Seq<char>)
    ensures
        first_occurrence(s, p) matches Some(i) ==> occurs_at(s, p, i) && forall|j: int|
            0 <= j < i ==> !occurs_at(s, p, j),
{
    if contains(s, p) {
        let k = choose|k: int| occurs_at(s, p, k);
        assert(occurs_at(s, p, k));
        lemma_least_occurrence(s, p, k);
    }
}

proof fn lemma_least_occurrence(s: Seq<char>, p: Seq<char>, k: int)
    requires
        occurs_at(s, p, k),
    ensures
        exists|i: int| occurs_at(s, p, i) && forall|j: int| 0 <= j < i ==> !occurs_at(s, p, j),
    decreases k,
{
    if exists|j: int| 0 <= j < k && occurs_at(s, p, j) {
        let j = choose|j: int| 0 <= j < k && occurs_at(s, p, j);
        lemma_least_occurrence(s, p, j);
    } else {
        assert(occurs_at(s, p, k) && forall|j: int| 0 <= j < k ==> !occurs_at(s, p, j));
    }
}

/// Position of the first occurrence of `p` in `s`.
pub fn find(s: &[char], p: &[char]) -> (res: Option<usize>)
    ensures
        match res {
            Some(i) => first_occurrence(s@, p@) == Some(i as int),
            None => first_occurrence(s@, p@) is None,
        },
{
    let r = find_from(s, p, 0);
    proof {
        match r {
            Some(i) => lemma_first_occurrence(s@, p@, i as int),
            None => {
                if contains(s@, p@) {
                    let k = choose|k: int| occurs_at(s@, p@, k);
                    assert(occurs_at(s@, p@, k));
                }
            },
        }
    }
    r
}

pub fn slice_contains(s: &[char], p: &[char]) -> (res: bool)
    ensures
        res == contains(s@, p@),
{
    let r = find_from(s, p, 0);
    proof {
        if r is None && contains(s@, p@) {
            let k = choose|k: int| occurs_at(s@, p@, k);
            assert(occurs_at(s@, p@, k));
        }
    }
    r.is_some()
}

/// `s` contains the literal `p`.
pub fn str_contains(s: &[char], p: &str) -> (res: bool)
    ensures
        res == contains(s@, p@),
{
    let pv = chars_of(p);
    slice_contains(s, pv.as_slice())
}

pub fn str_starts_with(s: &[char], p: &str) -> (res: bool)
    ensures
        res == starts_with(s@, p@),
{
    let pv = chars_of(p);
    slice_starts_with(s, pv.as_slice())
}

pub fn str_ends_with(s: &[char], p: &str) -> (res: bool)
    ensures
        res == ends_with(s@, p@),
{
    let pv = chars_of(p);
    slice_ends_with(s, pv.as_slice())
}

/// `s` equals the literal `p`.
pub fn str_eq(s: &[char], p: &str) -> (res: bool)
    ensures
        res == (s@ == p@),
{
    let pv = chars_of(p);
    if s.len() != pv.len() {
        return false;
    }
    let r = occurs_at_exec(s, pv.as_slice(), 0);
    proof {
        if r {
            assert(s@ =~= s@.subrange(0, pv@.len() as int));
        } else {
            if s@ == pv@ {
                assert(s@.subrange(0, pv@.len() as int) =~= pv@);
            }
        }
    }
    r
}

/// ASCII lower-cased copy.
pub fn lower_vec(s: &[char]) -> (res: Vec<char>)
    ensures
        res@ == lower(s@),
{
    let mut out: Vec<char> = Vec::new();
    let mut i: usize = 0;
    while i < s.len()
        invariant
            i <= s@.len(),
            out@ == lower(s@.take(i as int)),
        decreases s@.len() - i,
    {
        out.push(char_lower(s[i]));
        i = i + 1;
        proof {
            assert(lower(s@.take(i as int)) =~= lower(s@.take(i - 1)).push(lower_char(s@[i - 1])));
        }
    }
    proof {
        assert(s@.take(s@.len() as int) =~= s@);
    }
    out
}

// ───────────── trimming ─────────────

/// `s` without its leading white space.
pub open spec fn trim_start(s: Seq<char>) -> Seq<char>
    decreases s.len(),
{
    if s.len() > 0 && is_white_space(s[0]) {
        trim_start(s.drop_first())
    } else {
        s
    }
}

/// `s` without its trailing white space.
pub open spec fn trim_end(s: Seq<char>) -> Seq<char>
    decreases s.len(),
{
    if s.len() > 0 && is_white_space(s.last()) {
        trim_end(s.drop_last())
    } else {
        s
    }
}

/// `s` without leading and trailing white space (`str::trim`).
pub open spec fn trim(s: Seq<char>) -> Seq<char> {
    trim_end(trim_start(s))
}

proof fn lemma_trim_start_skip(s: Seq<char>, i: int)
    requires
        0 <= i <= s.len(),
        forall|k: int| 0 <= k < i ==> is_white_space(#[trigger] s[k]),
    ensures
        trim_start(s) == trim_start(s.skip(i)),
    decreases i,
{
    if i > 0 {
        assert(s.skip(1) =~= s.drop_first());
        lemma_trim_start_skip(s.drop_first(), i - 1);
        assert(s.drop_first().skip(i - 1) =~= s.skip(i));
    } else {
        assert(s.skip(0) =~= s);
    }
}

proof fn lemma_trim_end_take(s: Seq<char>, j: int)
    requires
        0 <= j <= s.len(),
        forall|k: int| j <= k < s.len() ==> is_white_space(#[trigger] s[k]),
    ensures
        trim_end(s) == trim_end(s.take(j)),
    decreases s.len() - j,
{
    if j < s.len() {
        assert(s.take(s.len() - 1) =~= s.drop_last());
        lemma_trim_end_take(s.drop_last(), j);
        assert(s.drop_last().take(j) =~= s.take(j));
    } else {
        assert(s.take(j) =~= s);
    }
}

/// Bounds of the trimmed part: `trim(s) == s[start..end]`.
pub fn trim_bounds(s: &[char]) -> (res: (usize, usize))
    ensures
        res.0 <= res.1 <= s@.len(),
        s@.subrange(res.0 as int, res.1 as int) == trim(s@),
        s@.skip(res.0 as int) == trim_start(s@),
{
    let mut i: usize = 0;
    while i < s.len() && char_is_white_space(s[i])
        invariant
            i <= s@.len(),
            forall|k: int| 0 <= k < i ==> is_white_space(#[trigger] s@[k]),
        decreases s@.len() - i,
    {
        i = i + 1;
    }
    proof {
        lemma_trim_start_skip(s@, i as int);
    }
    let ghost t = s@.skip(i as int);
    assert(trim_start(t) == t);
    let mut j: usize = s.len();
    while j > i && char_is_white_space(s[j - 1])
        invariant
            i <= j <= s@.len(),
            forall|k: int| j <= k < s@.len() ==> is_white_space(#[trigger] s@[k]),
        decreases j,
    {
        j = j - 1;
    }
    proof {
        let n = (j - i) as int;
        assert forall|k: int| n <= k < t.len() implies is_white_space(#[trigger] t[k]) by {
            assert(t[k] == s@[k + i]);
        }
        lemma_trim_end_take(t, n);
        assert(t.take(n) =~= s@.subrange(i as int, j as int));
        let u = t.take(n);
        if u.len() > 0 {
            assert(u.last() == s@[j - 1]);
        }
        assert(trim_end(u) == u);
    }
    (i, j)
}

/// Copy without leading white space.
pub fn trim_start_vec(s: &[char]) -> (res: Vec<char>)
    ensures
        res@ == trim_start(s@),
{
    let (a, _b) = trim_bounds(s);
    let r = slice_sub(s, a, s.len());
    proof {
        assert(r@ =~= s@.skip(a as int));
    }
    r
}

/// Trimmed copy of a run of characters.
pub fn trim_vec(s: &[char]) -> (res: Vec<char>)
    ensures
        res@ == trim(s@),
{
    let (a, b) = trim_bounds(s);
    slice_sub(s, a, b)
}

/// Copy of `s[a..b]`.
pub fn slice_sub(s: &[char], a: usize, b: usize) -> (res: Vec<char>)
    requires
        a <= b <= s@.len(),
    ensures
        res@ == s@.subrange(a as int, b as int),
{
    let mut out: Vec<char> = Vec::new();
    let mut i: usize = a;
    while i < b
        invariant
            a <= i <= b,
            b <= s@.len(),
            out@ == s@.subrange(a as int, i as int),
        decreases b - i,
    {
        out.push(s[i]);
        i = i + 1;
        proof {
            assert(s@.subrange(a as int, i as int) =~= s@.subrange(a as int, i - 1).push(s@[i - 1]));
        }
    }
    out
}

// ───────────── integer parsing (`str::parse` / `from_str_radix`) ─────────────

/// Value of one digit in the given radix (10 or 16).
pub open spec fn digit_value(c: char, radix: nat) -> Option<nat> {
    if is_digit(c) {
        Some((c as u32 - 48) as nat)
    } else if radix == 16 && 'a' <= c && c <= 'f' {
        Some((c as u32 - 87) as nat)
    } else if radix == 16 && 'A' <= c && c <= 'F' {
        Some((c as u32 - 55) as nat)
    } else {
        None
    }
}

pub open spec fn all_digits(s: Seq<char>, radix: nat) -> bool {
    forall|i: int| 0 <= i < s.len() ==> (#[trigger] digit_value(s[i], radix)) is Some
}

/// Value of a run of digits, most significant first.
pub open spec fn digits_value(s: Seq<char>, radix: nat) -> nat
    decreases s.len(),
{
    if s.len() == 0 {
        0
    } else {
        digits_value(s.drop_last(), radix) * radix + digit_value(s.last(), radix).unwrap()
    }
}

/// What `from_str_radix` of an unsigned type whose largest value is `max` gives:
/// an optional `+`, then at least one digit, and a value that fits.
pub open spec fn parse_unsigned(s: Seq<char>, radix: nat, max: nat) -> Option<nat> {
    let digits = if s.len() > 0 && s[0] == '+' {
        s.drop_first()
    } else {
        s
    };
    if digits.len() == 0 || !all_digits(digits, radix) || digits_value(digits, radix) > max {
        None
    } else {
        Some(digits_value(digits, radix))
    }
}

proof fn lemma_digits_value_prefix(s: Seq<char>, radix: nat, i: int)
    requires
        0 <= i <= s.len(),
        radix >= 1,
        all_digits(s, radix),
    ensures
        digits_value(s.take(i), radix) <= digits_value(s, radix),
    decreases s.len() - i,
{
    if i < s.len() {
        lemma_digits_value_prefix(s.drop_last(), radix, i);
        assert(s.drop_last().take(i) =~= s.take(i));
        let v = digits_value(s.drop_last(), radix);
        assert(v * radix >= v) by (nonlinear_arith)
            requires
                radix >= 1,
        ;
    } else {
        assert(s.take(i) =~= s);
    }
}

fn digit_value_exec(c: char, radix: u32) -> (res: Option<u32>)
    requires
        radix == 10 || radix == 16,
    ensures
        match res {
            Some(v) => digit_value(c, radix as nat) == Some(v as nat) && v < radix,
            None => digit_value(c, radix as nat) is None,
        },
{
    let u: u32 = c as u32;
    if '0' <= c && c <= '9' {
        Some(u - 48)
    } else if radix == 16 && 'a' <= c && c <= 'f' {
        Some(u - 87)
    } else if radix == 16 && 'A' <= c && c <= 'F' {
        Some(u - 55)
    } else {
        None
    }
}

/// `from_str_radix` for an unsigned type whose largest value is `max`.
pub fn parse_unsigned_exec(s: &[char], radix: u32, max: u64) -> (res: Option<u64>)
    requires
        radix == 10 || radix == 16,
    ensures
        match res {
            Some(v) => parse_unsigned(s@, radix as nat, max as nat) == Some(v as nat),
            None => parse_unsigned(s@, radix as nat, max as nat) is None,
        },
{
    let start: usize = if s.len() > 0 && s[0] == '+' {
        1
    } else {
        0
    };
    let ghost digits = s@.skip(start as int);
    proof {
        if start == 1 {
            assert(digits =~= s@.drop_first());
        } else {
            assert(digits =~= s@);
        }
    }
    if start >= s.len() {
        return None;
    }
    let mut acc: u64 = 0;
    let mut i: usize = start;
    while i < s.len()
        invariant
            start <= i <= s@.len(),
            digits == s@.skip(start as int),
            digits == (if s@.len() > 0 && s@[0] == '+' {
                s@.drop_first()
            } else {
                s@
            }),
            radix == 10 || radix == 16,
            all_digits(digits.take(i - start), radix as nat),
            acc as nat == digits_value(digits.take(i - start), radix as nat),
            acc <= max,
        decreases s@.len() - i,
    {
        let ghost k = (i - start) as int;
        let d = digit_value_exec(s[i], radix);
        match d {
            None => {
                proof {
                    assert(digits[k] == s@[i as int]);
                    assert(digit_value(digits[k], radix as nat) is None);
                    assert(!all_digits(digits, radix as nat));
                }
                return None;
            },
            Some(dv) => {
                proof {
                    assert(digits.take(k + 1).drop_last() =~= digits.take(k));
                    assert(digits.take(k + 1).last() == s@[i as int]);
                    assert forall|j: int| 0 <= j < k + 1 implies (#[trigger] digit_value(
                        digits.take(k + 1)[j],
                        radix as nat,
                    )) is Some by {
                        if j < k {
                            assert(digits.take(k + 1)[j] == digits.take(k)[j]);
                        }
                    }
                }
                let wide: u128 = (acc as u128) * (radix as u128) + (dv as u128);
                proof {
                    assert((acc as u128) * (radix as u128) <= (u64::MAX as u128) * 16)
                        by (nonlinear_arith)
                        requires
                            acc <= u64::MAX,
                            radix <= 16,
                    ;
                }
                if wide > max as u128 {
                    proof {
                        assert(digits_value(digits.take(k + 1), radix as nat) == wide as nat);
                        if all_digits(digits, radix as nat) {
                            lemma_digits_value_prefix(digits, radix as nat, k + 1);
                            assert(digits_value(digits, radix as nat) > max);
                        }
                    }
                    return None;
                }
                acc = wide as u64;
                i = i + 1;
            },
        }
    }
    proof {
        assert(digits.take(i - start) =~= digits);
    }
    Some(acc)
}

// ───────────── splitting (`str::split` on one character) ─────────────

/// The pieces of `s` between occurrences of `sep` (at least one piece).
pub open spec fn split(s: Seq<char>, sep: char) -> Seq<Seq<char>>
    decreases s.len(),
{
    if s.len() == 0 {
        seq![Seq::<char>::empty()]
    } else {
        let r = split(s.drop_last(), sep);
        if s.last() == sep {
            r.push(Seq::<char>::empty())
        } else {
            r.update(r.len() - 1, r.last().push(s.last()))
        }
    }
}

pub proof fn lemma_split_nonempty(s: Seq<char>, sep: char)
    ensures
        split(s, sep).len() >= 1,
    decreases s.len(),
{
    if s.len() > 0 {
        lemma_split_nonempty(s.drop_last(), sep);
    }
}

/// The texts held by strings.
pub open spec fn names_of(v: Seq<String>) -> Seq<Seq<char>> {
    v.map_values(|s: String| s@)
}

/// The character runs held by a vector of vectors.
pub open spec fn views(v: Seq<Vec<char>>) -> Seq<Seq<char>> {
    v.map_values(|p: Vec<char>| p@)
}

/// `s.split(sep)`, collected.
pub fn split_exec(s: &[char], sep: char) -> (res: Vec<Vec<char>>)
    ensures
        views(res@) == split(s@, sep),
{
    let mut done: Vec<Vec<char>> = Vec::new();
    let mut cur: Vec<char> = Vec::new();
    let mut i: usize = 0;
    proof {
        assert(s@.take(0) =~= Seq::<char>::empty());
        assert(views(done@).push(cur@) =~= split(s@.take(0), sep));
    }
    while i < s.len()
        invariant
            i <= s@.len(),
            views(done@).push(cur@) == split(s@.take(i as int), sep),
        decreases s@.len() - i,
    {
        let c = s[i];
        let ghost prev = split(s@.take(i as int), sep);
        proof {
            assert(s@.take(i + 1).drop_last() =~= s@.take(i as int));
            assert(s@.take(i + 1).last() == c);
            lemma_split_nonempty(s@.take(i as int), sep);
        }
        if c == sep {
            let finished = cur;
            done.push(finished);
            cur = Vec::new();
            proof {
                assert(views(done@).push(cur@) =~= prev.push(Seq::<char>::empty()));
            }
        } else {
            cur.push(c);
            proof {
                assert(views(done@).push(cur@) =~= prev.update(prev.len() - 1, prev.last().push(c)));
            }
        }
        i = i + 1;
    }
    done.push(cur);
    proof {
        assert(s@.take(s@.len() as int) =~= s@);
    }
    done
}

/// `s` with every leading `c` removed (`trim_start_matches(c)`).
pub open spec fn strip_leading(s: Seq<char>, c: char) -> Seq<char>
    decreases s.len(),
{
    if s.len() > 0 && s[0] == c {
        strip_leading(s.drop_first(), c)
    } else {
        s
    }
}

proof fn lemma_strip_leading_skip(s: Seq<char>, c: char, i: int)
    requires
        0 <= i <= s.len(),
        forall|k: int| 0 <= k < i ==> s[k] == c,
    ensures
        strip_leading(s, c) == strip_leading(s.skip(i), c),
    decreases i,
{
    if i > 0 {
        lemma_strip_leading_skip(s.drop_first(), c, i - 1);
        assert(s.drop_first().skip(i - 1) =~= s.skip(i));
    } else {
        assert(s.skip(0) =~= s);
    }
}

/// Position after the leading run of `c`.
pub fn strip_leading_start(s: &[char], c: char) -> (res: usize)
    ensures
        res <= s@.len(),
        s@.skip(res as int) == strip_leading(s@, c),
{
    let mut i: usize = 0;
    while i < s.len() && s[i] == c
        invariant
            i <= s@.len(),
            forall|k: int| 0 <= k < i ==> s@[k] == c,
        decreases s@.len() - i,
    {
        i = i + 1;
    }
    proof {
        lemma_strip_leading_skip(s@, c, i as int);
    }
    i
}

/// `s` with every trailing `c` removed (`trim_end_matches(c)`).
pub open spec fn strip_trailing(s: Seq<char>, c: char) -> Seq<char>
    decreases s.len(),
{
    if s.len() > 0 && s.last() == c {
        strip_trailing(s.drop_last(), c)
    } else {
        s
    }
}

proof fn lemma_strip_trailing_take(s: Seq<char>, c: char, j: int)
    requires
        0 <= j <= s.len(),
        forall|k: int| j <= k < s.len() ==> s[k] == c,
    ensures
        strip_trailing(s, c) == strip_trailing(s.take(j), c),
    decreases s.len() - j,
{
    if j < s.len() {
        lemma_strip_trailing_take(s.drop_last(), c, j);
        assert(s.drop_last().take(j) =~= s.take(j));
    } else {
        assert(s.take(j) =~= s);
    }
}

/// End of `s` once its trailing run of `c` is removed.
pub fn strip_trailing_end(s: &[char], c: char) -> (res: usize)
    ensures
        res <= s@.len(),
        s@.take(res as int) == strip_trailing(s@, c),
{
    let mut j: usize = s.len();
    while j > 0 && s[j - 1] == c
        invariant
            j <= s@.len(),
            forall|k: int| j <= k < s@.len() ==> s@[k] == c,
        decreases j,
    {
        j = j - 1;
    }
    proof {
        lemma_strip_trailing_take(s@, c, j as int);
        let t = s@.take(j as int);
        if t.len() > 0 {
            assert(t.last() == s@[j - 1]);
        }
    }
    j
}

// ───────────── joining ─────────────

/// The pieces joined with `sep` between them.
pub open spec fn join(parts: Seq<Seq<char>>, sep: Seq<char>) -> Seq<char>
    decreases parts.len(),
{
    if parts.len() == 0 {
        Seq::empty()
    } else if parts.len() == 1 {
        parts[0]
    } else {
        join(parts.drop_last(), sep) + sep + parts.last()
    }
}

/// Joins runs of characters with `sep` between them.
pub fn join_exec(parts: &Vec<Vec<char>>, sep: &str) -> (res: String)
    ensures
        res@ == join(views(parts@), sep@),
{
    let mut s = String::new();
    let ghost pv = views(parts@);
    let mut i: usize = 0;
    while i < parts.len()
        invariant
            i <= parts@.len(),
            pv == views(parts@),
            s@ == join(pv.take(i as int), sep@),
        decreases parts@.len() - i,
    {
        proof {
            assert(pv.take(i + 1).drop_last() =~= pv.take(i as int));
            assert(pv.take(i + 1).last() == parts@[i as int]@);
        }
        if i > 0 {
            push_str(&mut s, sep);
        } else {
            proof {
                assert(join(pv.take(0), sep@) =~= Seq::<char>::empty());
            }
        }
        push_chars(&mut s, parts[i].as_slice());
        proof {
            if i == 0 {
                assert(s@ =~= pv.take(1)[0]);
            }
        }
        i = i + 1;
    }
    proof {
        assert(pv.take(parts@.len() as int) =~= pv);
    }
    s
}

/// Number of occurrences of `c` in `s`.
pub open spec fn count_char(s: Seq<char>, c: char) -> nat
    decreases s.len(),
{
    if s.len() == 0 {
        0
    } else {
        count_char(s.drop_last(), c) + if s.last() == c {
            1nat
        } else {
            0nat
        }
    }
}

pub fn count_char_exec(s: &[char], c: char) -> (res: usize)
    ensures
        res == count_char(s@, c),
{
    let mut n: usize = 0;
    let mut i: usize = 0;
    while i < s.len()
        invariant
            i <= s@.len(),
            n == count_char(s@.take(i as int), c),
            n <= i,
        decreases s@.len() - i,
    {
        proof {
            assert(s@.take(i + 1).drop_last() =~= s@.take(i as int));
        }
        if s[i] == c {
            n = n + 1;
        }
        i = i + 1;
    }
    proof {
        assert(s@.take(s@.len() as int) =~= s@);
    }
    n
}

// ───────────── lines and words ─────────────

/// A line without its `\r` before the `\n`.
pub open spec fn strip_cr(p: Seq<char>) -> Seq<char> {
    if p.len() > 0 && p.last() == '\r' {
        p.drop_last()
    } else {
        p
    }
}

/// `str::lines`: the text cut at `\n` or `\r\n`; a final line ending adds no
/// empty line.
pub open spec fn lines(s: Seq<char>) -> Seq<Seq<char>> {
    let parts = split(s, '\n');
    let body = parts.drop_last().map_values(|p: Seq<char>| strip_cr(p));
    if parts.last().len() == 0 {
        body
    } else {
        body.push(parts.last())
    }
}

pub fn lines_exec(s: &[char]) -> (res: Vec<Vec<char>>)
    ensures
        views(res@) == lines(s@),
{
    let parts = split_exec(s, '\n');
    let ghost pv = views(parts@);
    proof {
        lemma_split_nonempty(s@, '\n');
    }
    let n = parts.len();
    let mut out: Vec<Vec<char>> = Vec::new();
    let mut i: usize = 0;
    while i + 1 < n
        invariant
            n == parts@.len(),
            n >= 1,
            i < n,
            pv == views(parts@),
            views(out@) == pv.take(i as int).map_values(|p: Seq<char>| strip_cr(p)),
        decreases n - i,
    {
        let p = &parts[i];
        let e: usize = if p.len() > 0 && p[p.len() - 1] == '\r' {
            p.len() - 1
        } else {
            p.len()
        };
        let q = slice_sub(p.as_slice(), 0, e);
        proof {
            assert(q@ =~= strip_cr(pv[i as int]));
        }
        let ghost before = views(out@);
        out.push(q);
        proof {
            assert(views(out@) =~= before.push(strip_cr(pv[i as int])));
            assert(pv.take(i + 1).map_values(|p: Seq<char>| strip_cr(p)) =~= pv.take(
                i as int,
            ).map_values(|p: Seq<char>| strip_cr(p)).push(strip_cr(pv[i as int])));
        }
        i = i + 1;
    }
    proof {
        assert(pv.take(i as int) =~= pv.drop_last());
    }
    let last = &parts[n - 1];
    if last.len() > 0 {
        let ghost before = views(out@);
        let copy = slice_sub(last.as_slice(), 0, last.len());
        out.push(copy);
        proof {
            assert(copy@ =~= last@);
            assert(views(out@) =~= before.push(pv.last()));
        }
    }
    out
}

/// The characters after the last white space of `t` (the last word when `t`
/// does not end in white space).
pub open spec fn word_tail(t: Seq<char>) -> Seq<char>
    decreases t.len(),
{
    if t.len() == 0 || is_white_space(t.last()) {
        Seq::empty()
    } else {
        word_tail(t.drop_last()).push(t.last())
    }
}

/// `split_whitespace().last()`.
pub open spec fn last_word(s: Seq<char>) -> Option<Seq<char>> {
    let t = trim_end(s);
    if t.len() == 0 {
        None
    } else {
        Some(word_tail(t))
    }
}

proof fn lemma_word_tail_at(t: Seq<char>, k: int)
    requires
        0 <= k <= t.len(),
        forall|j: int| k <= j < t.len() ==> !is_white_space(#[trigger] t[j]),
        k == 0 || is_white_space(t[k - 1]),
    ensures
        word_tail(t) == t.skip(k),
    decreases t.len() - k,
{
    if k < t.len() {
        lemma_word_tail_at(t.drop_last(), k);
        assert(t.drop_last().skip(k).push(t.last()) =~= t.skip(k));
    } else {
        assert(t.skip(k) =~= Seq::<char>::empty());
    }
}

pub fn last_word_exec(s: &[char]) -> (res: Option<Vec<char>>)
    ensures
        match res {
            Some(w) => last_word(s@) == Some(w@),
            None => last_word(s@) is None,
        },
{
    let mut j: usize = s.len();
    while j > 0 && char_is_white_space(s[j - 1])
        invariant
            j <= s@.len(),
            forall|k: int| j <= k < s@.len() ==> is_white_space(#[trigger] s@[k]),
        decreases j,
    {
        j = j - 1;
    }
    proof {
        lemma_trim_end_take(s@, j as int);
        let t = s@.take(j as int);
        if t.len() > 0 {
            assert(t.last() == s@[j - 1]);
        }
        assert(trim_end(t) == t);
    }
    if j == 0 {
        return None;
    }
    let mut k: usize = j;
    while k > 0 && !char_is_white_space(s[k - 1])
        invariant
            k <= j <= s@.len(),
            forall|m: int| k <= m < j ==> !is_white_space(#[trigger] s@[m]),
        decreases k,
    {
        k = k - 1;
    }
    proof {
        let t = s@.take(j as int);
        assert forall|m: int| k <= m < t.len() implies !is_white_space(#[trigger] t[m]) by {
            assert(t[m] == s@[m]);
        }
        if k > 0 {
            assert(t[k - 1] == s@[k - 1]);
        }
        lemma_word_tail_at(t, k as int);
        assert(t.skip(k as int) =~= s@.subrange(k as int, j as int));
    }
    Some(slice_sub(s, k, j))
}

/// `s` with every leading copy of `p` removed (`trim_start_matches(p)`).
pub open spec fn strip_leading_seq(s: Seq<char>, p: Seq<char>) -> Seq<char>
    decreases s.len(),
{
    if p.len() > 0 && starts_with(s, p) {
        strip_leading_seq(s.skip(p.len() as int), p)
    } else {
        s
    }
}

pub fn strip_leading_seq_exec(s: &[char], p: &[char]) -> (res: Vec<char>)
    ensures
        res@ == strip_leading_seq(s@, p@),
{
    if p.len() == 0 {
        return slice_sub(s, 0, s.len());
    }
    let mut i: usize = 0;
    proof {
        assert(s@.skip(0) =~= s@);
    }
    while p.len() <= s.len() - i && occurs_at_exec(s, p, i)
        invariant
            i <= s@.len(),
            p@.len() > 0,
            strip_leading_seq(s@, p@) == strip_leading_seq(s@.skip(i as int), p@),
        decreases s@.len() - i,
    {
        proof {
            let t = s@.skip(i as int);
            assert(t.take(p@.len() as int) =~= s@.subrange(i as int, i + p@.len()));
            assert(t.skip(p@.len() as int) =~= s@.skip(i + p@.len()));
        }
        i = i + p.len();
    }
    proof {
        let t = s@.skip(i as int);
        if p@.len() <= t.len() {
            assert(t.take(p@.len() as int) =~= s@.subrange(i as int, i + p@.len()));
        }
    }
    let r = slice_sub(s, i, s.len());
    proof {
        assert(r@ =~= s@.skip(i as int));
    }
    r
}

/// Text order, character by character (the order of `str`'s comparison).
pub open spec fn lex_le(a: Seq<char>, b: Seq<char>) -> bool
    decreases a.len(),
{
    if a.len() == 0 {
        true
    } else if b.len() == 0 {
        false
    } else if (a[0] as u32) != (b[0] as u32) {
        (a[0] as u32) < (b[0] as u32)
    } else {
        lex_le(a.drop_first(), b.drop_first())
    }
}

/// Whether `a` comes before or equals `b` (see `lex_le`).
pub fn lex_le_exec(a: &[char], b: &[char]) -> (res: bool)
    ensures
        res == lex_le(a@, b@),
{
    let mut i: usize = 0;
    proof {
        assert(a@.skip(0) =~= a@);
        assert(b@.skip(0) =~= b@);
    }
    loop
        invariant
            i <= a@.len(),
            i <= b@.len(),
            lex_le(a@, b@) == lex_le(a@.skip(i as int), b@.skip(i as int)),
        decreases a@.len() - i,
    {
        if i == a.len() {
            return true;
        }
        if i == b.len() {
            return false;
        }
        proof {
            assert(a@.skip(i as int)[0] == a@[i as int]);
            assert(b@.skip(i as int)[0] == b@[i as int]);
            assert(a@.skip(i as int).drop_first() =~= a@.skip(i + 1));
            assert(b@.skip(i as int).drop_first() =~= b@.skip(i + 1));
        }
        let x: u32 = a[i] as u32;
        let y: u32 = b[i] as u32;
        if x != y {
            return x < y;
        }
        i = i + 1;
    }
}

} // verus!
