//! Regular-expression matching, provided by the `regex` crate.
use vstd::prelude::*;

verus! {

/// What compiling `pattern` with `regex::Regex::new` and asking `is_match` on
/// `text` gives: `None` when the pattern does not compile.
pub uninterp spec fn regex_match(pattern: Seq<char>, text: Seq<char>) -> Option<bool>;

/// What compiling `pattern` with `regex::Regex::new` and taking the first match's
/// `captures` on `text` gives: `None` when the pattern does not compile; then
/// `None` when nothing matches or capture group `group` took no part; else the
/// text before the whole match, the group's text, and the text after the whole
/// match.
pub uninterp spec fn regex_capture(pattern: Seq<char>, text: Seq<char>, group: nat) -> Option<
    Option<(Seq<char>, Seq<char>, Seq<char>)>,
>;

/// `regex::Regex::new(pattern)` followed by `Regex::is_match(text)`.
///
/// The contract only names the result: whether a pattern compiles and what it
/// matches is the `regex` crate's own matter and is not restated here.
#[verifier::external_body]
pub(crate) fn pattern_matches(pattern: &str, text: &str) -> (res: Option<bool>)
    ensures
        res == regex_match(pattern@, text@),
{
    match regex::Regex::new(pattern) {
        Ok(re) => Some(re.is_match(text)),
        Err(_) => None,
    }
}

/// `regex::Regex::new(pattern)` followed by `Regex::captures(text)`, read out as
/// the text before the first match, capture group `group`, and the text after it.
///
/// As for `pattern_matches`, the contract names the result and says no more of
/// the crate's matching rules.
#[verifier::external_body]
pub(crate) fn pattern_capture(pattern: &str, text: &str, group: usize) -> (res: Option<
    Option<(String, String, String)>,
>)
    ensures
        match res {
            None => regex_capture(pattern@, text@, group as nat) is None,
            Some(None) => regex_capture(pattern@, text@, group as nat) == Some(
                None::<(Seq<char>, Seq<char>, Seq<char>)>,
            ),
            Some(Some(t)) => regex_capture(pattern@, text@, group as nat) == Some(
                Some((t.0@, t.1@, t.2@)),
            ),
        },
{
    let re = match regex::Regex::new(pattern) {
        Ok(re) => re,
        Err(_) => return None,
    };
    let caps = match re.captures(text) {
        Some(c) => c,
        None => return Some(None),
    };
    let (whole, part) = match (caps.get(0), caps.get(group)) {
        (Some(w), Some(p)) => (w, p),
        _ => return Some(None),
    };
    Some(Some((text[..whole.start()].to_string(), part.as_str().to_string(), text[whole.end()..].to_string())))
}

} // verus!
