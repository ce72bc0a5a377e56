//! Interface language and light or dark appearance.
use vstd::prelude::*;
use crate::text::{
    chars_of, contains, last_word, last_word_exec, lines, lines_exec, starts_with, str_contains,
    str_eq, str_starts_with, views,
};

verus! {

/// Interface language.
#[derive(Clone, Copy, Debug, PartialEq, Eq, Structural)]
pub enum Language {
    Zh,
    En,
}

/// The language at start: the setting when one is made (`en` is English,
/// anything else Chinese), else Chinese for a system locale that starts with
/// `zh`, else English.
pub fn startup_language(setting: &str, locale: &str) -> (res: Language)
    ensures
        res == if setting@.len() > 0 {
            if setting@ == "en"@ {
                Language::En
            } else {
                Language::Zh
            }
        } else if starts_with(locale@, "zh"@) {
            Language::Zh
        } else {
            Language::En
        },
{
    let s = chars_of(setting);
    if s.len() > 0 {
        if str_eq(s.as_slice(), "en") {
            Language::En
        } else {
            Language::Zh
        }
    } else {
        let l = chars_of(locale);
        if str_starts_with(l.as_slice(), "zh") {
            Language::Zh
        } else {
            Language::En
        }
    }
}

/// The language while running: `en` or `zh` from the setting, otherwise the
/// current one stays.
pub fn frame_language(setting: &str, current: Language) -> (res: Language)
    ensures
        res == if setting@ == "en"@ {
            Language::En
        } else if setting@ == "zh"@ {
            Language::Zh
        } else {
            current
        },
{
    let s = chars_of(setting);
    if str_eq(s.as_slice(), "en") {
        Language::En
    } else if str_eq(s.as_slice(), "zh") {
        Language::Zh
    } else {
        current
    }
}

/// What the `AppsUseLightTheme` lines of `reg query` output say: the last such
/// line decides, dark when its last word holds `0x0`.
pub open spec fn registry_dark(ls: Seq<Seq<char>>) -> Option<bool>
    decreases ls.len(),
{
    if ls.len() == 0 {
        None
    } else if contains(ls.last(), "AppsUseLightTheme"@) {
        Some(
            match last_word(ls.last()) {
                Some(w) => contains(w, "0x0"@),
                None => false,
            },
        )
    } else {
        registry_dark(ls.drop_last())
    }
}

/// Whether the Windows theme setting in `reg query` output is dark (none when
/// the output has no such line).
pub fn system_dark_from_registry(output: &str) -> (res: Option<bool>)
    ensures
        res == registry_dark(lines(output@)),
{
    let cs = chars_of(output);
    let ls = lines_exec(cs.as_slice());
    let ghost lv = views(ls@);
    let mut res: Option<bool> = None;
    let mut i: usize = 0;
    proof {
        assert(lv.take(0) =~= Seq::<Seq<char>>::empty());
    }
    while i < ls.len()
        invariant
            i <= ls@.len(),
            lv == views(ls@),
            res == registry_dark(lv.take(i as int)),
        decreases ls@.len() - i,
    {
        proof {
            assert(lv.take(i + 1).drop_last() =~= lv.take(i as int));
            assert(lv.take(i + 1).last() == ls@[i as int]@);
        }
        if str_contains(ls[i].as_slice(), "AppsUseLightTheme") {
            let dark = match last_word_exec(ls[i].as_slice()) {
                Some(w) => str_contains(w.as_slice(), "0x0"),
                None => false,
            };
            res = Some(dark);
        }
        i = i + 1;
    }
    proof {
        assert(lv.take(ls@.len() as int) =~= lv);
    }
    res
}

/// The system appearance remembered at start: in `auto` mode what the system
/// said (light when it said nothing); in the other modes nothing.
pub fn startup_system_dark(theme_mode: &str, detected: Option<bool>) -> (res: Option<bool>)
    ensures
        res == if theme_mode@ == "auto"@ {
            Some(
                match detected {
                    Some(d) => d,
                    None => false,
                },
            )
        } else {
            None
        },
{
    let m = chars_of(theme_mode);
    if str_eq(m.as_slice(), "auto") {
        match detected {
            Some(d) => Some(d),
            None => Some(false),
        }
    } else {
        None
    }
}

/// Dark appearance: in `auto` mode the remembered system appearance (light when
/// there is none), otherwise whether the mode is `dark`.
pub fn dark_mode(theme_mode: &str, system_dark: Option<bool>) -> (res: bool)
    ensures
        res == if theme_mode@ == "auto"@ {
            match system_dark {
                Some(d) => d,
                None => false,
            }
        } else {
            theme_mode@ == "dark"@
        },
{
    let m = chars_of(theme_mode);
    if str_eq(m.as_slice(), "auto") {
        match system_dark {
            Some(d) => d,
            None => false,
        }
    } else {
        str_eq(m.as_slice(), "dark")
    }
}

} // verus!
