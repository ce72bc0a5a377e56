//! Self-update decisions: version comparison, release asset choice and the
//! state that the update button shows.
//!
//! The network requests, the file download and the replacement of the running
//! executable are performed by the caller; this module decides what they lead to.
use vstd::prelude::*;
use crate::text::{
    string_from,
    chars_of, lemma_split_nonempty, parse_unsigned, parse_unsigned_exec, push_str, split,
    split_exec, starts_with, ends_with, str_ends_with, str_starts_with, string_of, strip_leading,
    strip_leading_start, views,
};

verus! {

/// Latest release of the launcher (official API).
pub const API_OFFICIAL: &'static str = "https://api.github.com/repos/yihuishou/llama.cpp-launcher/releases/latest";

/// Latest release of the launcher through the gh-proxy mirror.
pub const API_MIRROR: &'static str = "https://gh-proxy.com/https://api.github.com/repos/yihuishou/llama.cpp-launcher/releases/latest";

/// Timeout of the official API, in seconds.
pub const OFFICIAL_TIMEOUT_SECS: u64 = 16;

/// Timeout of the mirror, in seconds.
pub const MIRROR_TIMEOUT_SECS: u64 = 32;

/// Message shown when every source failed at the network level.
pub const ERR_NETWORK: &'static str = "network-error";

/// State of the update flow, as the update button shows it.
#[derive(Clone, Debug, PartialEq, Eq)]
pub enum UpdateState {
    Idle,
    Checking,
    UpToDate,
    /// A newer version exists (its number, without a leading `v`).
    Available(String),
    Downloading,
    /// Download finished; the executable is being replaced.
    Installing,
    /// Failure, with an English message.
    Error(String),
}

/// Snapshot that the interface polls.
#[derive(Clone, Debug)]
pub struct UpdateStatus {
    pub state: UpdateState,
    /// Bytes downloaded so far.
    pub done: u64,
    /// Bytes in total (0 when unknown).
    pub total: u64,
}

impl Default for UpdateStatus {
    fn default() -> (res: Self)
        ensures
            res.state == UpdateState::Idle,
            res.done == 0,
            res.total == 0,
    {
        UpdateStatus { state: UpdateState::Idle, done: 0, total: 0 }
    }
}

/// A release asset, as the release API lists it.
#[derive(Clone, Debug)]
pub struct ReleaseAsset {
    pub name: String,
    pub size: u64,
    pub browser_download_url: String,
}

pub open spec fn is_busy_state(state: UpdateState) -> bool {
    state is Checking || state is Downloading || state is Installing
}

// ───────────── version comparison ─────────────

/// The numbers of the dot-separated parts that parse as `u64`, in order.
pub open spec fn parsed_numbers(parts: Seq<Seq<char>>) -> Seq<nat>
    decreases parts.len(),
{
    if parts.len() == 0 {
        Seq::empty()
    } else {
        let r = parsed_numbers(parts.drop_last());
        match parse_unsigned(parts.last(), 10, u64::MAX as nat) {
            Some(v) => r.push(v),
            None => r,
        }
    }
}

/// The numbers of a version text: leading `v`s dropped, split on `.`, parts that
/// are not numbers skipped.
pub open spec fn version_numbers(s: Seq<char>) -> Seq<nat> {
    parsed_numbers(split(strip_leading(s, 'v'), '.'))
}

/// Lexicographic order on number sequences, a proper prefix being older.
pub open spec fn numbers_newer(t: Seq<nat>, c: Seq<nat>) -> bool
    decreases t.len(),
{
    if t.len() == 0 || c.len() == 0 {
        t.len() > c.len()
    } else if t[0] != c[0] {
        t[0] > c[0]
    } else {
        numbers_newer(t.drop_first(), c.drop_first())
    }
}

/// `tag` names a newer version than `current`.
pub open spec fn newer(tag: Seq<char>, current: Seq<char>) -> bool {
    numbers_newer(version_numbers(tag), version_numbers(current))
}

fn version_numbers_exec(s: &str) -> (res: Vec<u64>)
    ensures
        res@.map_values(|v: u64| v as nat) == version_numbers(s@),
{
    let cs = chars_of(s);
    let start = strip_leading_start(cs.as_slice(), 'v');
    let rest = crate::text::slice_sub(cs.as_slice(), start, cs.len());
    proof {
        assert(rest@ =~= cs@.skip(start as int));
    }
    let parts = split_exec(rest.as_slice(), '.');
    let ghost pv = views(parts@);
    let mut out: Vec<u64> = Vec::new();
    let mut i: usize = 0;
    while i < parts.len()
        invariant
            i <= parts@.len(),
            pv == views(parts@),
            out@.map_values(|v: u64| v as nat) == parsed_numbers(pv.take(i as int)),
        decreases parts@.len() - i,
    {
        let p = &parts[i];
        let r = parse_unsigned_exec(p.as_slice(), 10, u64::MAX);
        proof {
            assert(pv.take(i + 1).drop_last() =~= pv.take(i as int));
            assert(pv.take(i + 1).last() == p@);
        }
        match r {
            Some(v) => {
                let ghost before = out@;
                out.push(v);
                proof {
                    assert(out@.map_values(|v: u64| v as nat) =~= before.map_values(
                        |v: u64| v as nat,
                    ).push(v as nat));
                }
            },
            None => {},
        }
        i = i + 1;
    }
    proof {
        assert(pv.take(parts@.len() as int) =~= pv);
    }
    out
}

/// Whether release `tag` is newer than version `current` ("v0.1.20" against "0.1.19").
pub fn is_newer(tag: &str, current: &str) -> (res: bool)
    ensures
        res == newer(tag@, current@),
{
    let t = version_numbers_exec(tag);
    let c = version_numbers_exec(current);
    let ghost tv = t@.map_values(|v: u64| v as nat);
    let ghost cv = c@.map_values(|v: u64| v as nat);
    let mut i: usize = 0;
    proof {
        assert(tv.skip(0) =~= tv);
        assert(cv.skip(0) =~= cv);
    }
    while i < t.len() && i < c.len()
        invariant
            i <= t@.len(),
            i <= c@.len(),
            tv == t@.map_values(|v: u64| v as nat),
            cv == c@.map_values(|v: u64| v as nat),
            tv == version_numbers(tag@),
            cv == version_numbers(current@),
            numbers_newer(tv, cv) == numbers_newer(tv.skip(i as int), cv.skip(i as int)),
        decreases t@.len() - i,
    {
        proof {
            assert(tv.skip(i as int)[0] == t@[i as int] as nat);
            assert(cv.skip(i as int)[0] == c@[i as int] as nat);
            assert(tv.skip(i as int).drop_first() =~= tv.skip(i + 1));
            assert(cv.skip(i as int).drop_first() =~= cv.skip(i + 1));
        }
        if t[i] != c[i] {
            proof {
                let a = tv.skip(i as int);
                let b = cv.skip(i as int);
                assert(a.len() > 0 && b.len() > 0);
                assert(a[0] != b[0]);
                assert(numbers_newer(a, b) == (a[0] > b[0]));
                assert(a[0] == t@[i as int] as nat);
                assert(b[0] == c@[i as int] as nat);
            }
            return t[i] > c[i];
        }
        i = i + 1;
    }
    proof {
        assert(tv.skip(i as int).len() == t@.len() - i);
        assert(cv.skip(i as int).len() == c@.len() - i);
    }
    t.len() > c.len()
}

/// `tag` without its leading `v`s.
pub fn trim_v(tag: &str) -> (res: String)
    ensures
        res@ == strip_leading(tag@, 'v'),
{
    let cs = chars_of(tag);
    let start = strip_leading_start(cs.as_slice(), 'v');
    let rest = crate::text::slice_sub(cs.as_slice(), start, cs.len());
    proof {
        assert(rest@ =~= cs@.skip(start as int));
    }
    string_of(rest.as_slice())
}

proof fn lemma_numbers_irreflexive(t: Seq<nat>)
    ensures
        !numbers_newer(t, t),
    decreases t.len(),
{
    if t.len() > 0 {
        lemma_numbers_irreflexive(t.drop_first());
    }
}

proof fn lemma_numbers_asymmetric(t: Seq<nat>, c: Seq<nat>)
    ensures
        numbers_newer(t, c) ==> !numbers_newer(c, t),
    decreases t.len(),
{
    if t.len() > 0 && c.len() > 0 && t[0] == c[0] {
        lemma_numbers_asymmetric(t.drop_first(), c.drop_first());
    }
}

proof fn lemma_numbers_transitive(a: Seq<nat>, b: Seq<nat>, c: Seq<nat>)
    ensures
        numbers_newer(a, b) && numbers_newer(b, c) ==> numbers_newer(a, c),
    decreases a.len(),
{
    if a.len() > 0 && b.len() > 0 && c.len() > 0 && a[0] == b[0] && b[0] == c[0] {
        lemma_numbers_transitive(a.drop_first(), b.drop_first(), c.drop_first());
    }
}

/// No version is newer than itself.
pub proof fn is_newer_irreflexive(v: Seq<char>)
    ensures
        !newer(v, v),
{
    lemma_numbers_irreflexive(version_numbers(v));
}

/// Of two versions, at most one is newer than the other.
pub proof fn is_newer_asymmetric(a: Seq<char>, b: Seq<char>)
    ensures
        newer(a, b) ==> !newer(b, a),
{
    lemma_numbers_asymmetric(version_numbers(a), version_numbers(b));
}

/// Newer-than is transitive.
pub proof fn is_newer_transitive(a: Seq<char>, b: Seq<char>, c: Seq<char>)
    ensures
        newer(a, b) && newer(b, c) ==> newer(a, c),
{
    lemma_numbers_transitive(version_numbers(a), version_numbers(b), version_numbers(c));
}

// ───────────── release asset ─────────────

/// The launcher executable: `llama_cpp_launcher_v*.exe`.
pub open spec fn is_launcher_asset_name(name: Seq<char>) -> bool {
    starts_with(name, "llama_cpp_launcher_v"@) && ends_with(name, ".exe"@)
}

/// Index of the first launcher asset.
pub open spec fn first_launcher_asset(assets: Seq<ReleaseAsset>) -> Option<int> {
    if exists|i: int| 0 <= i < assets.len() && is_launcher_asset_name(#[trigger] assets[i].name@) {
        Some(
            choose|i: int|
                0 <= i < assets.len() && is_launcher_asset_name(#[trigger] assets[i].name@) && forall|
                    j: int,
                | 0 <= j < i ==> !is_launcher_asset_name(#[trigger] assets[j].name@),
        )
    } else {
        None
    }
}

fn is_launcher_asset_name_exec(name: &String) -> (res: bool)
    ensures
        res == is_launcher_asset_name(name@),
{
    let cs = chars_of(name.as_str());
    str_starts_with(cs.as_slice(), "llama_cpp_launcher_v") && str_ends_with(cs.as_slice(), ".exe")
}

/// The first asset named `llama_cpp_launcher_v*.exe`.
pub fn pick_launcher_asset(assets: &[ReleaseAsset]) -> (res: Option<&ReleaseAsset>)
    ensures
        match first_launcher_asset(assets@) {
            Some(i) => res == Some(&assets@[i]),
            None => res is None,
        },
{
    let mut i: usize = 0;
    while i < assets.len()
        invariant
            i <= assets@.len(),
            forall|j: int| 0 <= j < i ==> !is_launcher_asset_name(#[trigger] assets@[j].name@),
        decreases assets@.len() - i,
    {
        if is_launcher_asset_name_exec(&assets[i].name) {
            proof {
                let k = choose|k: int|
                    0 <= k < assets@.len() && is_launcher_asset_name(#[trigger] assets@[k].name@)
                        && forall|j: int|
                        0 <= j < k ==> !is_launcher_asset_name(#[trigger] assets@[j].name@);
                assert(0 <= i < assets@.len() && is_launcher_asset_name(assets@[i as int].name@));
                if k < i {
                    assert(!is_launcher_asset_name(assets@[k].name@));
                }
                if i < k {
                    assert(!is_launcher_asset_name(assets@[i as int].name@));
                }
            }
            return Some(&assets[i]);
        }
        i = i + 1;
    }
    None
}

/// Error text when the release holds no launcher executable.
pub fn missing_asset_message(tag: &str) -> (res: String)
    ensures
        res@ == "no launcher asset in release "@ + tag@,
{
    let mut s = crate::text::string_from("no launcher asset in release ");
    push_str(&mut s, tag);
    s
}

// ───────────── state transitions ─────────────

impl UpdateStatus {
    /// A check, a download or an installation is under way.
    pub fn is_busy(&self) -> (res: bool)
        ensures
            res == is_busy_state(self.state),
    {
        match self.state {
            UpdateState::Checking | UpdateState::Downloading | UpdateState::Installing => true,
            _ => false,
        }
    }

    /// Starts a check unless one is under way; says whether the check starts.
    pub fn begin_check(&mut self) -> (started: bool)
        ensures
            started == !is_busy_state(old(self).state),
            started ==> final(self).state == UpdateState::Checking,
            !started ==> final(self).state == old(self).state,
            final(self).done == old(self).done,
            final(self).total == old(self).total,
    {
        if self.is_busy() {
            return false;
        }
        self.state = UpdateState::Checking;
        true
    }

    /// An installation can start: a newer version is known.
    pub fn can_install(&self) -> (res: bool)
        ensures
            res == self.state is Available,
    {
        match self.state {
            UpdateState::Available(_) => true,
            _ => false,
        }
    }

    /// Result of a check: the tag of the latest release, or the error met.
    pub fn finish_check(&mut self, fetched: Result<String, String>, current: &str)
        ensures
            final(self).done == old(self).done,
            final(self).total == old(self).total,
            match fetched {
                Ok(tag) => if newer(tag@, current@) {
                    final(self).state matches UpdateState::Available(v) && v@ == strip_leading(
                        tag@,
                        'v',
                    )
                } else {
                    final(self).state == UpdateState::UpToDate
                },
                Err(m) => final(self).state == UpdateState::Error(m),
            },
    {
        match fetched {
            Ok(tag) => {
                if is_newer(tag.as_str(), current) {
                    self.state = UpdateState::Available(trim_v(tag.as_str()));
                } else {
                    self.state = UpdateState::UpToDate;
                }
            },
            Err(m) => {
                self.state = UpdateState::Error(m);
            },
        }
    }

    /// A download of `size` bytes starts.
    pub fn begin_download(&mut self, size: u64)
        ensures
            final(self).state == UpdateState::Downloading,
            final(self).done == 0,
            final(self).total == size,
    {
        self.state = UpdateState::Downloading;
        self.done = 0;
        self.total = size;
    }

    /// Bytes received so far.
    pub fn record_progress(&mut self, done: u64)
        ensures
            final(self).state == old(self).state,
            final(self).done == done,
            final(self).total == old(self).total,
    {
        self.done = done;
    }

    /// End of a download: a cancelled one returns to idle, a failed one shows its
    /// error, a finished one goes on to installation (the returned `true` asks the
    /// caller to replace the executable).
    pub fn finish_download(&mut self, result: Result<(), String>, cancelled: bool) -> (install: bool)
        ensures
            install == (result is Ok && !cancelled),
            cancelled ==> final(self).state == UpdateState::Idle,
            !cancelled ==> match result {
                Ok(_) => final(self).state == UpdateState::Installing && final(self).total == old(
                    self,
                ).done,
                Err(m) => final(self).state == UpdateState::Error(m),
            },
            final(self).done == old(self).done,
            (cancelled || result is Err) ==> final(self).total == old(self).total,
    {
        if cancelled {
            self.state = UpdateState::Idle;
            return false;
        }
        match result {
            Ok(_) => {
                self.state = UpdateState::Installing;
                self.total = self.done;
                true
            },
            Err(m) => {
                self.state = UpdateState::Error(m);
                false
            },
        }
    }
}

// ───────────── replacing the running executable ─────────────

/// `t` in double quotes.
pub open spec fn quoted(t: Seq<char>) -> Seq<char> {
    "\""@ + t + "\""@
}

/// The script that replaces the running executable once it has exited and
/// starts the new one: on Windows a `cmd` line that waits, moves the running
/// file aside, moves the new file in, deletes the old one and starts it; on
/// other systems an `sh` line that does the same in the background.
pub open spec fn restart_script_text(
    exe: Seq<char>,
    old_exe: Seq<char>,
    new_exe: Seq<char>,
    windows: bool,
) -> Seq<char> {
    if windows {
        "ping -n 4 127.0.0.1 >nul & move /Y "@ + quoted(exe) + " "@ + quoted(old_exe)
            + " & move /Y "@ + quoted(new_exe) + " "@ + quoted(exe) + " & del /Q "@ + quoted(
            old_exe,
        ) + " & start "@ + quoted(Seq::empty()) + " "@ + quoted(exe)
    } else {
        "(sleep 3; mv "@ + quoted(exe) + " "@ + quoted(old_exe) + "; mv "@ + quoted(new_exe)
            + " "@ + quoted(exe) + "; rm -f "@ + quoted(old_exe) + "; "@ + quoted(exe)
            + " &) >/dev/null 2>&1 &"@
    }
}

fn push_quoted(s: &mut String, t: &str)
    ensures
        final(s)@ == old(s)@ + quoted(t@),
{
    push_str(s, "\"");
    push_str(s, t);
    push_str(s, "\"");
    proof {
        assert(s@ =~= old(s)@ + quoted(t@));
    }
}

/// The replacement script (see `restart_script_text`).
pub fn restart_script(exe: &str, old_exe: &str, new_exe: &str, windows: bool) -> (res: String)
    ensures
        res@ == restart_script_text(exe@, old_exe@, new_exe@, windows),
{
    let nothing = String::new();
    if windows {
        let mut s = string_from("ping -n 4 127.0.0.1 >nul & move /Y ");
        push_quoted(&mut s, exe);
        push_str(&mut s, " ");
        push_quoted(&mut s, old_exe);
        push_str(&mut s, " & move /Y ");
        push_quoted(&mut s, new_exe);
        push_str(&mut s, " ");
        push_quoted(&mut s, exe);
        push_str(&mut s, " & del /Q ");
        push_quoted(&mut s, old_exe);
        push_str(&mut s, " & start ");
        push_quoted(&mut s, nothing.as_str());
        push_str(&mut s, " ");
        push_quoted(&mut s, exe);
        s
    } else {
        let mut s = string_from("(sleep 3; mv ");
        push_quoted(&mut s, exe);
        push_str(&mut s, " ");
        push_quoted(&mut s, old_exe);
        push_str(&mut s, "; mv ");
        push_quoted(&mut s, new_exe);
        push_str(&mut s, " ");
        push_quoted(&mut s, exe);
        push_str(&mut s, "; rm -f ");
        push_quoted(&mut s, old_exe);
        push_str(&mut s, "; ");
        push_quoted(&mut s, exe);
        push_str(&mut s, " &) >/dev/null 2>&1 &");
        s
    }
}

proof fn lemma_first_number(parts: Seq<Seq<char>>, v: nat)
    requires
        parts.len() >= 1,
        parse_unsigned(parts[0], 10, u64::MAX as nat) == Some(v),
    ensures
        parsed_numbers(parts).len() >= 1,
        parsed_numbers(parts)[0] == v,
    decreases parts.len(),
{
    if parts.len() == 1 {
        assert(parts.drop_last().len() == 0);
        assert(parsed_numbers(parts.drop_last()) =~= Seq::<nat>::empty());
        assert(parts.last() == parts[0]);
        assert(parsed_numbers(parts) == Seq::<nat>::empty().push(v));
    } else {
        assert(parts.drop_last()[0] == parts[0]);
        lemma_first_number(parts.drop_last(), v);
        let r = parsed_numbers(parts.drop_last());
        match parse_unsigned(parts.last(), 10, u64::MAX as nat) {
            Some(w) => {
                assert(parsed_numbers(parts) == r.push(w));
                assert(r.push(w)[0] == r[0]);
            },
            None => {},
        }
    }
}

proof fn lemma_all_numbers(parts: Seq<Seq<char>>)
    requires
        forall|i: int| 0 <= i < parts.len() ==> parse_unsigned(#[trigger] parts[i], 10, u64::MAX as nat) is Some,
    ensures
        parsed_numbers(parts).len() == parts.len(),
        forall|i: int|
            0 <= i < parts.len() ==> Some(#[trigger] parsed_numbers(parts)[i]) == parse_unsigned(
                parts[i],
                10,
                u64::MAX as nat,
            ),
    decreases parts.len(),
{
    if parts.len() > 0 {
        let q = parts.drop_last();
        assert forall|i: int| 0 <= i < q.len() implies parse_unsigned(#[trigger] q[i], 10, u64::MAX as nat) is Some by {
            assert(q[i] == parts[i]);
        }
        lemma_all_numbers(q);
        assert(parse_unsigned(parts[parts.len() - 1], 10, u64::MAX as nat) is Some);
        assert forall|i: int| 0 <= i < parts.len() implies Some(#[trigger] parsed_numbers(parts)[i])
            == parse_unsigned(parts[i], 10, u64::MAX as nat) by {
            if i < q.len() {
                assert(q[i] == parts[i]);
            }
        }
    }
}

/// The numbers of a version text are all of its dot-separated numbers, the
/// first one included: when every part after the leading `v`s is a number,
/// the version has exactly those numbers, in order.
pub proof fn version_numbers_are_all_parts(s: Seq<char>)
    ensures
        ({
            let parts = split(strip_leading(s, 'v'), '.');
            (forall|i: int| 0 <= i < parts.len() ==> parse_unsigned(#[trigger] parts[i], 10, u64::MAX as nat) is Some)
                ==> version_numbers(s).len() == parts.len() && forall|i: int|
                0 <= i < parts.len() ==> Some(#[trigger] version_numbers(s)[i]) == parse_unsigned(
                parts[i],
                10,
                u64::MAX as nat,
            )
        }),
{
    let parts = split(strip_leading(s, 'v'), '.');
    if forall|i: int| 0 <= i < parts.len() ==> parse_unsigned(#[trigger] parts[i], 10, u64::MAX as nat) is Some {
        lemma_all_numbers(parts);
    }
}

/// The first (major) numbers decide when they differ: a tag whose first
/// number is greater than the current version's is newer, and one whose first
/// number is smaller is not (so `v1.0.0` is newer than `0.9.0`).
pub proof fn major_number_decides(tag: Seq<char>, current: Seq<char>)
    ensures
        ({
            let pt = split(strip_leading(tag, 'v'), '.');
            let pc = split(strip_leading(current, 'v'), '.');
            match (parse_unsigned(pt[0], 10, u64::MAX as nat), parse_unsigned(pc[0], 10, u64::MAX as nat)) {
                (Some(x), Some(y)) => (x > y ==> newer(tag, current)) && (x < y ==> !newer(tag, current)),
                _ => true,
            }
        }),
{
    let pt = split(strip_leading(tag, 'v'), '.');
    let pc = split(strip_leading(current, 'v'), '.');
    lemma_split_nonempty(strip_leading(tag, 'v'), '.');
    lemma_split_nonempty(strip_leading(current, 'v'), '.');
    match (parse_unsigned(pt[0], 10, u64::MAX as nat), parse_unsigned(pc[0], 10, u64::MAX as nat)) {
        (Some(x), Some(y)) => {
            lemma_first_number(pt, x);
            lemma_first_number(pc, y);
        },
        _ => {},
    }
}

} // verus!
