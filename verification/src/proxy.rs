//! The Windows system proxy (as set by tools such as Clash), read from the
//! `Internet Settings` registry key that `reg query` prints.
use vstd::prelude::*;
use crate::dirtree::{lowercase_chars, lowercase_text};
use crate::text::{
    first_occurrence, strip_trailing, chars_of, contains, last_word, last_word_exec, lines, lines_exec, parse_unsigned,
    parse_unsigned_exec, push_chars, str_contains, string_from, string_of, strip_leading_seq,
    strip_leading_seq_exec, views,
};

verus! {

#[verifier::external_type_specification]
#[verifier::external_body]
pub struct ExProxy(ureq::Proxy);

/// The schemes `ureq::Proxy::new` knows.
pub open spec fn proxy_scheme(s: Seq<char>) -> bool {
    s == "http"@ || s == "socks4"@ || s == "socks4a"@ || s == "socks"@ || s == "socks5"@
}

/// When `ureq::Proxy::new(url)` succeeds: after the trailing `/`s are cut, a
/// scheme before the first `://` is one it knows, and where the rest holds an
/// `@`, the credentials before the last one hold a `:`.
pub open spec fn proxy_accepted(url: Seq<char>) -> bool {
    let t = strip_trailing(url, '/');
    let (scheme_ok, rest) = match first_occurrence(t, "://"@) {
        Some(p) => (proxy_scheme(t.take(p)), t.skip(p + 3)),
        None => (true, t),
    };
    scheme_ok && ((forall|j: int| 0 <= j < rest.len() ==> rest[j] != '@') || exists|i: int, j: int|
        0 <= i < j < rest.len() && rest[i] == ':' && rest[j] == '@')
}

/// The proxy that `ureq::Proxy::new(url)` builds; none when it refuses the
/// address. It parses its argument and nothing else.
pub uninterp spec fn ureq_proxy(url: Seq<char>) -> Option<ureq::Proxy>;

/// `ureq::Proxy::new`: the proxy address parsed by ureq.
///
/// Claimed: the result is the proxy named for `url`, and it succeeds exactly
/// as `proxy_accepted` says. What ureq keeps of the address (host, port,
/// credentials) lives in crate-private fields and is not stated.
#[verifier::external_body]
fn new_proxy(url: &str) -> (res: Option<ureq::Proxy>)
    ensures
        res == ureq_proxy(url@),
        res is Some == proxy_accepted(url@),
{
    ureq::Proxy::new(url).ok()
}

/// What the registry lines say: the last `ProxyEnable` value (hexadecimal, after
/// its `0x` prefixes) and the last `ProxyServer` value seen, line by line.
pub open spec fn registry_values(ls: Seq<Seq<char>>) -> (Option<Option<nat>>, Option<Option<Seq<char>>>)
    decreases ls.len(),
{
    if ls.len() == 0 {
        (None, None)
    } else {
        let (e, s) = registry_values(ls.drop_last());
        let line = ls.last();
        let lower = lowercase_text(line);
        if contains(lower, "proxyenable"@) {
            (Some(match last_word(line) {
                Some(w) => parse_unsigned(strip_leading_seq(w, "0x"@), 16, u32::MAX as nat),
                None => None,
            }), s)
        } else if contains(lower, "proxyserver"@) {
            (e, Some(last_word(line)))
        } else {
            (e, s)
        }
    }
}

/// The proxy address `reg query` output describes: the proxy is enabled
/// (`ProxyEnable` is 1) and a non-empty `ProxyServer` is given; an address
/// without a scheme gets `http://`.
pub open spec fn registry_proxy_url(text: Seq<char>) -> Option<Seq<char>> {
    let (e, s) = registry_values(lines(text));
    if e == Some(Some(1nat)) {
        match s {
            Some(Some(addr)) => if addr.len() == 0 {
                None
            } else if contains(addr, "://"@) {
                Some(addr)
            } else {
                Some("http://"@ + addr)
            },
            _ => None,
        }
    } else {
        None
    }
}

/// The proxy address described by `reg query` output on the Internet Settings key.
pub fn registry_proxy_address(text: &str) -> (res: Option<String>)
    ensures
        match res {
            Some(u) => registry_proxy_url(text@) == Some(u@),
            None => registry_proxy_url(text@) is None,
        },
{
    let cs = chars_of(text);
    let ls = lines_exec(cs.as_slice());
    let ghost lv = views(ls@);
    let zero_x = chars_of("0x");
    let mut enable: Option<Option<u64>> = None;
    let mut server: Option<Option<Vec<char>>> = None;
    let mut i: usize = 0;
    while i < ls.len()
        invariant
            i <= ls@.len(),
            lv == views(ls@),
            zero_x@ == "0x"@,
            ({
                let (e, s) = registry_values(lv.take(i as int));
                &&& e == match enable {
                    Some(Some(v)) => Some(Some(v as nat)),
                    Some(None) => Some(None::<nat>),
                    None => None::<Option<nat>>,
                }
                &&& s == match server {
                    Some(Some(w)) => Some(Some(w@)),
                    Some(None) => Some(None::<Seq<char>>),
                    None => None::<Option<Seq<char>>>,
                }
            }),
        decreases ls@.len() - i,
    {
        let line = &ls[i];
        let lower = lowercase_chars(line.as_slice());
        proof {
            assert(lv.take(i + 1).drop_last() =~= lv.take(i as int));
            assert(lv.take(i + 1).last() == line@);
        }
        if str_contains(lower.as_slice(), "proxyenable") {
            enable = Some(match last_word_exec(line.as_slice()) {
                Some(w) => {
                    let digits = strip_leading_seq_exec(w.as_slice(), zero_x.as_slice());
                    parse_unsigned_exec(digits.as_slice(), 16, 0xffff_ffff)
                },
                None => None,
            });
        } else if str_contains(lower.as_slice(), "proxyserver") {
            server = Some(last_word_exec(line.as_slice()));
        }
        i = i + 1;
    }
    proof {
        assert(lv.take(ls@.len() as int) =~= lv);
    }
    match enable {
        Some(Some(1)) => {},
        _ => {
            return None;
        },
    }
    match server {
        Some(Some(addr)) => {
            if addr.len() == 0 {
                None
            } else if str_contains(addr.as_slice(), "://") {
                Some(string_of(addr.as_slice()))
            } else {
                let mut u = string_from("http://");
                push_chars(&mut u, addr.as_slice());
                Some(u)
            }
        },
        _ => None,
    }
}

/// The system proxy for requests: the proxy ureq builds for the registry's
/// address, when one is enabled and ureq accepts it.
pub fn system_proxy_from_registry(text: &str) -> (res: Option<ureq::Proxy>)
    ensures
        match registry_proxy_url(text@) {
            Some(u) => res == ureq_proxy(u),
            None => res is None,
        },
        res is Some == match registry_proxy_url(text@) {
            Some(u) => proxy_accepted(u),
            None => false,
        },
{
    match registry_proxy_address(text) {
        Some(u) => new_proxy(u.as_str()),
        None => None,
    }
}

} // verus!
