//! Whether the machine is set up for mainland China, which decides whether the
//! download mirror is tried before the official source.
//!
//! The caller reads the system settings (the Windows time zone and the locale
//! variables) into `LocaleHints`; the decision is taken here.
use vstd::prelude::*;
use crate::dirtree::{lowercase_chars, lowercase_text};
use crate::platform::Platform;
use crate::text::{chars_of, contains, starts_with, str_contains, str_starts_with, trim, trim_vec};

verus! {

/// What the system says about its region.
pub struct LocaleHints {
    /// Windows: the time zone id that `tzutil /g` printed (when it succeeded).
    pub windows_timezone: Option<String>,
    /// `LANG`.
    pub lang: Option<String>,
    /// `LC_ALL`.
    pub lc_all: Option<String>,
    /// `LC_MESSAGES`.
    pub lc_messages: Option<String>,
}

pub open spec fn zh_cn(v: Option<String>) -> bool {
    match v {
        Some(s) => starts_with(s@, "zh_CN"@),
        None => false,
    }
}

/// The three checks, in order: on Windows, the time zone (trimmed and
/// lower-cased) names China or Qinghai; elsewhere, `LANG` starts with
/// `zh_CN`; on every platform, `LC_ALL` or `LC_MESSAGES` starts with `zh_CN`.
pub open spec fn in_china_mainland(platform: Platform, hints: LocaleHints) -> bool {
    let by_region = if platform.spec_is_windows() {
        match hints.windows_timezone {
            Some(tz) => {
                let t = lowercase_text(trim(tz@));
                contains(t, "china"@) || contains(t, "qinghai"@)
            },
            None => false,
        }
    } else {
        zh_cn(hints.lang)
    };
    by_region || zh_cn(hints.lc_all) || zh_cn(hints.lc_messages)
}

fn zh_cn_exec(v: &Option<String>) -> (res: bool)
    ensures
        res == zh_cn(*v),
{
    match v {
        Some(s) => {
            let cs = chars_of(s.as_str());
            str_starts_with(cs.as_slice(), "zh_CN")
        },
        None => false,
    }
}

/// The system is set up for mainland China.
pub fn is_china_mainland(platform: Platform, hints: &LocaleHints) -> (res: bool)
    ensures
        res == in_china_mainland(platform, *hints),
{
    let by_region = if platform.is_windows() {
        match &hints.windows_timezone {
            Some(tz) => {
                let cs = chars_of(tz.as_str());
                let t = trim_vec(cs.as_slice());
                let l = lowercase_chars(t.as_slice());
                str_contains(l.as_slice(), "china") || str_contains(l.as_slice(), "qinghai")
            },
            None => false,
        }
    } else {
        zh_cn_exec(&hints.lang)
    };
    by_region || zh_cn_exec(&hints.lc_all) || zh_cn_exec(&hints.lc_messages)
}

/// The mirror is tried first (before the official source) exactly in mainland China.
pub fn should_use_mirror_first(platform: Platform, hints: &LocaleHints) -> (res: bool)
    ensures
        res == in_china_mainland(platform, *hints),
{
    is_china_mainland(platform, hints)
}

} // verus!
