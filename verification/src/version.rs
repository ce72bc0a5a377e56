//! The version that a llama-server binary reports with `--version`, and the
//! build tag (`b1234`) inside it.
use vstd::prelude::*;
use crate::text::{
    chars_of, contains, is_digit, lines, lines_exec, slice_sub, starts_with, str_contains,
    str_starts_with, string_of, strip_leading, strip_leading_start, trim, trim_start,
    trim_start_vec, trim_vec, first_occurrence, find, lemma_first_occurrence_occurs, occurs_at, push_str,
    push_chars, views,
};

verus! {

/// Shown when the output names no version.
pub const UNKNOWN_VERSION: &'static str = "未知版本";

/// A line that names the version: with `colon`, one that holds `version:`;
/// without, one that starts with `version` after leading white space.
pub open spec fn version_line(l: Seq<char>, colon: bool) -> bool {
    if colon {
        contains(l, "version:"@)
    } else {
        starts_with(trim_start(l), "version"@)
    }
}

/// The first line of `ls` of that kind.
pub open spec fn first_version_line(ls: Seq<Seq<char>>, colon: bool) -> Option<Seq<char>>
    decreases ls.len(),
{
    if ls.len() == 0 {
        None
    } else if version_line(ls[0], colon) {
        Some(ls[0])
    } else {
        first_version_line(ls.skip(1), colon)
    }
}

/// What follows the first occurrence of `w` in `l`.
pub open spec fn after_word(l: Seq<char>, w: Seq<char>) -> Option<Seq<char>> {
    match first_occurrence(l, w) {
        Some(i) => Some(l.skip(i + w.len())),
        None => None,
    }
}

/// What follows the first `version:` of a line, else its first `version`.
pub open spec fn after_version_word(l: Seq<char>) -> Option<Seq<char>> {
    match after_word(l, "version:"@) {
        Some(v) => Some(v),
        None => after_word(l, "version"@),
    }
}

/// The version value of a line: after the word, trimmed, leading `=` removed,
/// trimmed again; none when that leaves nothing.
pub open spec fn version_value(l: Seq<char>) -> Option<Seq<char>> {
    match after_version_word(l) {
        None => None,
        Some(v) => {
            let t = trim(strip_leading(trim(v), '='));
            if t.len() == 0 {
                None
            } else {
                Some(t)
            }
        },
    }
}

/// The version named by the output lines `ls`: from the first line with
/// `version:`, else from the first that starts with `version`.
pub open spec fn version_in(ls: Seq<Seq<char>>) -> Option<Seq<char>> {
    match first_version_line(ls, true) {
        Some(l) => version_value(l),
        None => match first_version_line(ls, false) {
            Some(l) => version_value(l),
            None => None,
        },
    }
}

fn is_version_line(l: &[char], colon: bool) -> (res: bool)
    ensures
        res == version_line(l@, colon),
{
    if colon {
        str_contains(l, "version:")
    } else {
        let t = trim_start_vec(l);
        str_starts_with(t.as_slice(), "version")
    }
}

fn find_version_line(ls: &Vec<Vec<char>>, colon: bool) -> (res: Option<usize>)
    ensures
        match res {
            Some(i) => i < ls@.len() && first_version_line(views(ls@), colon) == Some(
                ls@[i as int]@,
            ),
            None => first_version_line(views(ls@), colon) is None,
        },
{
    let ghost all = views(ls@);
    let mut i: usize = 0;
    proof {
        assert(all.skip(0) =~= all);
    }
    while i < ls.len()
        invariant
            i <= ls@.len(),
            all == views(ls@),
            first_version_line(all, colon) == first_version_line(all.skip(i as int), colon),
        decreases ls@.len() - i,
    {
        let ghost rest = all.skip(i as int);
        proof {
            assert(rest[0] == ls@[i as int]@);
            assert(rest.skip(1) =~= all.skip(i + 1));
        }
        if is_version_line(ls[i].as_slice(), colon) {
            return Some(i);
        }
        i = i + 1;
    }
    proof {
        assert(all.skip(i as int).len() == 0);
    }
    None
}

fn text_after(l: &[char], word: &str) -> (res: Option<Vec<char>>)
    ensures
        match res {
            Some(v) => after_word(l@, word@) == Some(v@),
            None => after_word(l@, word@) is None,
        },
{
    let w = chars_of(word);
    proof {
        lemma_first_occurrence_occurs(l@, w@);
    }
    match find(l, w.as_slice()) {
        None => None,
        Some(i) => {
            assert(occurs_at(l@, w@, i as int));
            assert(l@.len() == l.len());
            let v = slice_sub(l, i + w.len(), l.len());
            proof {
                assert(v@ =~= l@.skip(i + w@.len()));
            }
            Some(v)
        },
    }
}

fn version_value_exec(l: &[char]) -> (res: Option<Vec<char>>)
    ensures
        match res {
            Some(v) => version_value(l@) == Some(v@),
            None => version_value(l@) is None,
        },
{
    let value = match text_after(l, "version:") {
        Some(v) => v,
        None => match text_after(l, "version") {
            Some(v) => v,
            None => {
                return None;
            },
        },
    };
    let t1 = trim_vec(value.as_slice());
    let k = strip_leading_start(t1.as_slice(), '=');
    let t2 = slice_sub(t1.as_slice(), k, t1.len());
    proof {
        assert(t2@ =~= t1@.skip(k as int));
    }
    let t3 = trim_vec(t2.as_slice());
    if t3.len() == 0 {
        None
    } else {
        Some(t3)
    }
}

/// The version line value from what `llama-server --version` printed: the lines
/// of standard output, then those of standard error; `UNKNOWN_VERSION` where
/// none names a version.
pub fn version_from_output(stdout: &str, stderr: &str) -> (res: String)
    ensures
        res@ == match version_in(lines(stdout@) + lines(stderr@)) {
            Some(v) => v,
            None => UNKNOWN_VERSION@,
        },
{
    let out_chars = chars_of(stdout);
    let err_chars = chars_of(stderr);
    let mut ls = lines_exec(out_chars.as_slice());
    let mut more = lines_exec(err_chars.as_slice());
    let ghost a = views(ls@);
    let ghost b = views(more@);
    ls.append(&mut more);
    proof {
        assert(views(ls@) =~= a + b);
    }
    let found = match find_version_line(&ls, true) {
        Some(i) => Some(i),
        None => find_version_line(&ls, false),
    };
    let value = match found {
        Some(i) => version_value_exec(ls[i].as_slice()),
        None => None,
    };
    match value {
        Some(v) => string_of(v.as_slice()),
        None => {
            let mut s = String::new();
            push_str(&mut s, UNKNOWN_VERSION);
            s
        },
    }
}

/// The digits at the start of `s`.
pub open spec fn digit_run(s: Seq<char>) -> Seq<char>
    decreases s.len(),
{
    if s.len() > 0 && is_digit(s[0]) {
        seq![s[0]] + digit_run(s.skip(1))
    } else {
        Seq::empty()
    }
}

/// The first `b` followed by a digit, with all the digits after it.
pub open spec fn build_tag(s: Seq<char>) -> Option<Seq<char>>
    decreases s.len(),
{
    if s.len() < 2 {
        None
    } else if s[0] == 'b' && is_digit(s[1]) {
        Some(seq!['b'] + digit_run(s.skip(1)))
    } else {
        build_tag(s.skip(1))
    }
}

proof fn lemma_digit_run_step(s: Seq<char>, a: int, e: int)
    requires
        0 <= a <= e < s.len(),
        is_digit(s[e]),
        digit_run(s.skip(a)) == s.subrange(a, e) + digit_run(s.skip(e)),
    ensures
        digit_run(s.skip(a)) == s.subrange(a, e + 1) + digit_run(s.skip(e + 1)),
{
    let t = s.skip(e);
    assert(t[0] == s[e]);
    assert(t.skip(1) =~= s.skip(e + 1));
    assert(digit_run(t) == seq![s[e]] + digit_run(s.skip(e + 1)));
    assert(s.subrange(a, e + 1) =~= s.subrange(a, e) + seq![s[e]]);
    assert(s.subrange(a, e) + (seq![s[e]] + digit_run(s.skip(e + 1))) =~= s.subrange(a, e + 1)
        + digit_run(s.skip(e + 1)));
}

/// The build tag of a version text, `b` and its number (`b10549`).
pub fn extract_build_tag(version: &str) -> (res: Option<String>)
    ensures
        match res {
            Some(t) => build_tag(version@) == Some(t@),
            None => build_tag(version@) is None,
        },
{
    let s = chars_of(version);
    let n = s.len();
    if n < 2 {
        return None;
    }
    let mut i: usize = 0;
    proof {
        assert(s@.skip(0) =~= s@);
    }
    while i < n - 1
        invariant
            n == s@.len(),
            n >= 2,
            i <= s@.len(),
            build_tag(s@) == build_tag(s@.skip(i as int)),
            s@ == version@,
        decreases s@.len() - i,
    {
        let ghost t = s@.skip(i as int);
        proof {
            assert(t[0] == s@[i as int]);
            assert(t[1] == s@[i + 1]);
        }
        if s[i] == 'b' && crate::text::char_is_digit(s[i + 1]) {
            let start = i + 1;
            let mut end = start;
            proof {
                assert(t.skip(1) =~= s@.skip(start as int));
                assert(build_tag(s@) == Some(seq!['b'] + digit_run(s@.skip(start as int))));
                assert(s@.subrange(start as int, start as int) =~= Seq::<char>::empty());
                assert(digit_run(s@.skip(start as int)) =~= s@.subrange(
                    start as int,
                    start as int,
                ) + digit_run(s@.skip(start as int)));
            }
            while end < s.len() && crate::text::char_is_digit(s[end])
                invariant
                    start <= end <= s@.len(),
                    build_tag(s@) == Some(seq!['b'] + digit_run(s@.skip(start as int))),
                    digit_run(s@.skip(start as int)) == s@.subrange(start as int, end as int)
                        + digit_run(s@.skip(end as int)),
                decreases s@.len() - end,
            {
                proof {
                    lemma_digit_run_step(s@, start as int, end as int);
                }
                end = end + 1;
            }
            proof {
                let r = s@.skip(end as int);
                if r.len() > 0 {
                    assert(r[0] == s@[end as int]);
                }
                assert(digit_run(r) =~= Seq::<char>::empty());
                assert(s@.subrange(start as int, end as int) + Seq::<char>::empty()
                    =~= s@.subrange(start as int, end as int));
            }
            let digits = slice_sub(s.as_slice(), start, end);
            let mut tag = String::new();
            crate::text::push_char(&mut tag, 'b');
            push_chars(&mut tag, digits.as_slice());
            proof {
                assert(tag@ =~= seq!['b'] + digits@);
            }
            return Some(tag);
        }
        proof {
            assert(t.skip(1) =~= s@.skip(i + 1));
        }
        i = i + 1;
    }
    proof {
        assert(s@.skip(i as int).len() < 2);
    }
    None
}

proof fn lemma_digit_run(s: Seq<char>)
    ensures
        digit_run(s).len() <= s.len(),
        digit_run(s) == s.take(digit_run(s).len() as int),
        forall|k: int| 0 <= k < digit_run(s).len() ==> is_digit(#[trigger] digit_run(s)[k]),
    decreases s.len(),
{
    if s.len() > 0 && is_digit(s[0]) {
        lemma_digit_run(s.skip(1));
        let r = digit_run(s.skip(1));
        assert(digit_run(s) == seq![s[0]] + r);
        assert(seq![s[0]] + r =~= s.take(r.len() as int + 1)) by {
            assert forall|k: int| 0 <= k < r.len() as int + 1 implies (seq![s[0]] + r)[k] == s[k] by {
                if k > 0 {
                    assert(r[k - 1] == s.skip(1)[k - 1]);
                }
            }
        }
        assert forall|k: int| 0 <= k < digit_run(s).len() implies is_digit(
            #[trigger] digit_run(s)[k],
        ) by {
            if k > 0 {
                assert(digit_run(s)[k] == r[k - 1]);
            }
        }
    } else {
        assert(s.take(0) =~= Seq::<char>::empty());
    }
}

/// A build tag is `b` followed by at least one digit, and it is taken from the
/// version text.
pub proof fn build_tag_shape(s: Seq<char>)
    ensures
        build_tag(s) matches Some(t) ==> {
            &&& t.len() >= 2
            &&& t[0] == 'b'
            &&& forall|k: int| 1 <= k < t.len() ==> is_digit(#[trigger] t[k])
            &&& contains(s, t)
        },
    decreases s.len(),
{
    if s.len() >= 2 {
        if s[0] == 'b' && is_digit(s[1]) {
            let rest = s.skip(1);
            lemma_digit_run(rest);
            let r = digit_run(rest);
            let t = seq!['b'] + r;
            assert(rest[0] == s[1]);
            assert(r.len() >= 1) by {
                assert(digit_run(rest) == seq![rest[0]] + digit_run(rest.skip(1)));
            }
            assert forall|k: int| 1 <= k < t.len() implies is_digit(#[trigger] t[k]) by {
                assert(t[k] == r[k - 1]);
            }
            assert(s.subrange(0, t.len() as int) =~= t) by {
                assert forall|k: int| 0 <= k < t.len() implies s[k] == t[k] by {
                    if k > 0 {
                        assert(r[k - 1] == rest[k - 1]);
                    }
                }
            }
            assert(occurs_at(s, t, 0));
        } else {
            build_tag_shape(s.skip(1));
            if let Some(t) = build_tag(s.skip(1)) {
                let i = choose|i: int| occurs_at(s.skip(1), t, i);
                assert(s.subrange(i + 1, i + 1 + t.len()) =~= s.skip(1).subrange(i, i + t.len()));
                assert(occurs_at(s, t, i + 1));
            }
        }
    }
}

/// Whether a newer llama.cpp build is offered: the local version's build tag
/// is not the latest tag (a version without a tag counts as older).
pub fn llama_update_available(local_version: &str, latest_tag: &str) -> (res: bool)
    ensures
        res == (build_tag(local_version@) != Some(latest_tag@)),
{
    match extract_build_tag(local_version) {
        Some(t) => {
            let tc = chars_of(t.as_str());
            !crate::text::str_eq(tc.as_slice(), latest_tag)
        },
        None => true,
    }
}

} // verus!
