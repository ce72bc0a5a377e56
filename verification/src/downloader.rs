//! Getting llama.cpp: which release and which asset to fetch, where the server
//! binary lies once unpacked, and the state the download shows.
//!
//! The requests, the file transfer and the unpacking are the caller's work; this
//! module decides from what they return.
use vstd::prelude::*;
use crate::pattern::{pattern_matches, regex_match};
use crate::platform::Platform;
use crate::dirtree::{bfs_find, first_holding, holds, search_order, DirNode, Probe};
use crate::text::{
    chars_of, contains, ends_with, is_digit, push_str, slice_sub, starts_with, str_contains,
    str_ends_with, str_eq, str_starts_with, string_from, string_of, trim, trim_vec,
};

verus! {

/// `User-Agent` of every request (the GitHub API requires one).
pub const USER_AGENT: &'static str = "llama-cpp-launcher";

/// Size of one read while downloading, in bytes.
pub const CHUNK_SIZE: usize = 8192;

/// Deepest sub-directory searched for the server binary.
pub const MAX_SEARCH_DEPTH: usize = 4;

/// Timeout of one request, in seconds; the next source is tried after it.
pub const NETWORK_TIMEOUT_SECS: u64 = 8;

/// Message shown when every source failed at the network level.
pub const ERR_NETWORK: &'static str = "network-error";

/// Mirror prefix of API requests.
pub const API_MIRROR_BASE: &'static str = "https://gh-proxy.com";

/// Mirror prefix of asset downloads.
pub const DOWNLOAD_MIRROR_BASE: &'static str = "https://gh-proxy.com/https://github.com";

/// Phase of a download (the interface shows a text for each).
#[derive(Clone, Copy, Debug, PartialEq, Eq)]
pub enum Phase {
    FetchingRelease,
    Downloading,
    Extracting,
    LocatingServer,
}

/// Overall state of a download.
#[derive(Clone, Debug, PartialEq, Eq)]
pub enum DownloadState {
    /// Nothing under way (initially, or after a cancellation).
    Idle,
    Running,
    /// Finished, with the path of the llama-server binary.
    Success(String),
    /// Failed, with an English message.
    Error(String),
}

/// Platform, architecture and inference backend of a prebuilt llama.cpp.
#[derive(Clone, Debug, PartialEq, Eq)]
pub enum DownloadVariant {
    WinCpu,
    WinCuda124,
    WinCuda133,
    /// ROCm 7.14 build for a GPU target such as `gfx103X`.
    WinRocm714(String),
    WinVulkan,
    WinCpuArm64,
    LinuxCpu,
    LinuxVulkan,
}

/// An asset of a GitHub release.
#[derive(Clone, Debug)]
pub struct Asset {
    /// File name, such as `llama-b10549-bin-win-cpu-x64.zip`.
    pub name: String,
    /// Size in bytes.
    pub size: u64,
    /// Download address.
    pub browser_download_url: String,
}

/// What the interface polls: state, phase and progress.
#[derive(Clone, Debug)]
pub struct DownloadStatus {
    pub state: DownloadState,
    pub phase: Phase,
    /// Bytes downloaded so far.
    pub done: u64,
    /// Bytes in total (known while downloading).
    pub total: Option<u64>,
}

impl Default for DownloadStatus {
    fn default() -> (res: Self)
        ensures
            res.state == DownloadState::Idle,
            res.phase == Phase::FetchingRelease,
            res.done == 0,
            res.total is None,
    {
        DownloadStatus { state: DownloadState::Idle, phase: Phase::FetchingRelease, done: 0, total: None }
    }
}

// ───────────── variants ─────────────

/// Characteristic part of the official asset name; for ROCm, a regular expression.
pub open spec fn asset_pattern(v: DownloadVariant) -> Seq<char> {
    match v {
        DownloadVariant::WinCpu => "bin-win-cpu-x64"@,
        DownloadVariant::WinCuda124 => "bin-win-cuda-12.4-x64"@,
        DownloadVariant::WinCuda133 => "bin-win-cuda-13.3-x64"@,
        DownloadVariant::WinRocm714(gpu) => "llama-.*-windows-rocm-"@ + gpu@ + "-x64\\.zip"@,
        DownloadVariant::WinVulkan => "bin-win-vulkan-x64"@,
        DownloadVariant::WinCpuArm64 => "bin-win-cpu-arm64"@,
        DownloadVariant::LinuxCpu => "bin-ubuntu-x64"@,
        DownloadVariant::LinuxVulkan => "bin-ubuntu-vulkan-x64"@,
    }
}

pub open spec fn asset_extension(v: DownloadVariant) -> Seq<char> {
    match v {
        DownloadVariant::LinuxCpu | DownloadVariant::LinuxVulkan => ".tar.gz"@,
        _ => ".zip"@,
    }
}

/// `v` is the variant for a `download_variant` setting on `platform`: the GPU
/// builds of CUDA and ROCm exist for Windows only, Vulkan for both; the old value
/// `gpu` means CUDA 12.4 on Windows and Vulkan on Linux; anything else is the CPU
/// build of the platform and architecture.
pub open spec fn is_variant_for(value: Seq<char>, platform: Platform, v: DownloadVariant) -> bool {
    let linux = platform.spec_is_linux();
    if value == "cuda124"@ && !linux {
        v == DownloadVariant::WinCuda124
    } else if value == "cuda133"@ && !linux {
        v == DownloadVariant::WinCuda133
    } else if value == "rocm714"@ && !linux {
        v matches DownloadVariant::WinRocm714(g) && g@ == "gfx103X"@
    } else if value == "vulkan"@ {
        v == if linux {
            DownloadVariant::LinuxVulkan
        } else {
            DownloadVariant::WinVulkan
        }
    } else if value == "gpu"@ {
        v == if linux {
            DownloadVariant::LinuxVulkan
        } else {
            DownloadVariant::WinCuda124
        }
    } else if linux {
        v == DownloadVariant::LinuxCpu
    } else if platform.aarch64 {
        v == DownloadVariant::WinCpuArm64
    } else {
        v == DownloadVariant::WinCpu
    }
}

impl DownloadVariant {
    /// Characteristic part of the official asset name
    /// (`llama-b10549-bin-win-cuda-12.4-x64.zip` for CUDA 12.4); for ROCm a
    /// regular expression over the whole name.
    pub fn asset_name(&self) -> (res: String)
        ensures
            res@ == asset_pattern(*self),
    {
        match self {
            DownloadVariant::WinCpu => string_from("bin-win-cpu-x64"),
            DownloadVariant::WinCuda124 => string_from("bin-win-cuda-12.4-x64"),
            DownloadVariant::WinCuda133 => string_from("bin-win-cuda-13.3-x64"),
            DownloadVariant::WinRocm714(gpu) => {
                let mut s = string_from("llama-.*-windows-rocm-");
                push_str(&mut s, gpu.as_str());
                push_str(&mut s, "-x64\\.zip");
                s
            },
            DownloadVariant::WinVulkan => string_from("bin-win-vulkan-x64"),
            DownloadVariant::WinCpuArm64 => string_from("bin-win-cpu-arm64"),
            DownloadVariant::LinuxCpu => string_from("bin-ubuntu-x64"),
            DownloadVariant::LinuxVulkan => string_from("bin-ubuntu-vulkan-x64"),
        }
    }

    /// The ROCm build comes from the lemonade-sdk repository.
    pub fn is_rocm_lemonade(&self) -> (res: bool)
        ensures
            res == (*self is WinRocm714),
    {
        match self {
            DownloadVariant::WinRocm714(_) => true,
            _ => false,
        }
    }

    /// File extension of the asset, which decides how it is unpacked.
    pub fn extension(&self) -> (res: &'static str)
        ensures
            res@ == asset_extension(*self),
    {
        match self {
            DownloadVariant::LinuxCpu | DownloadVariant::LinuxVulkan => ".tar.gz",
            _ => ".zip",
        }
    }

    /// Variant for the `download_variant` setting on the given platform.
    pub fn from_settings_value(value: &str, platform: Platform) -> (res: Self)
        ensures
            is_variant_for(value@, platform, res),
    {
        let v = chars_of(value);
        let linux = platform.is_linux();
        if str_eq(v.as_slice(), "cuda124") && !linux {
            DownloadVariant::WinCuda124
        } else if str_eq(v.as_slice(), "cuda133") && !linux {
            DownloadVariant::WinCuda133
        } else if str_eq(v.as_slice(), "rocm714") && !linux {
            DownloadVariant::WinRocm714(string_from("gfx103X"))
        } else if str_eq(v.as_slice(), "vulkan") {
            if linux {
                DownloadVariant::LinuxVulkan
            } else {
                DownloadVariant::WinVulkan
            }
        } else if str_eq(v.as_slice(), "gpu") {
            if linux {
                DownloadVariant::LinuxVulkan
            } else {
                DownloadVariant::WinCuda124
            }
        } else if linux {
            DownloadVariant::LinuxCpu
        } else if platform.aarch64 {
            DownloadVariant::WinCpuArm64
        } else {
            DownloadVariant::WinCpu
        }
    }
}

// ───────────── release addresses ─────────────

pub open spec fn api_base_of(is_rocm: bool) -> Seq<char> {
    if is_rocm {
        "https://api.github.com/repos/lemonade-sdk/llamacpp-rocm"@
    } else {
        "https://api.github.com/repos/ggml-org/llama.cpp"@
    }
}

/// Base address of the release API of the variant's repository.
pub fn api_base(variant: &DownloadVariant) -> (res: &'static str)
    ensures
        res@ == api_base_of(*variant is WinRocm714),
{
    if variant.is_rocm_lemonade() {
        "https://api.github.com/repos/lemonade-sdk/llamacpp-rocm"
    } else {
        "https://api.github.com/repos/ggml-org/llama.cpp"
    }
}

/// `official` with its prefix `prefix` replaced by `base`; unchanged without it.
pub open spec fn rebased(official: Seq<char>, prefix: Seq<char>, base: Seq<char>) -> Seq<char> {
    if starts_with(official, prefix) {
        base + official.skip(prefix.len() as int)
    } else {
        official
    }
}

fn rebase(official: &str, prefix: &str, base: &str) -> (res: String)
    ensures
        res@ == rebased(official@, prefix@, base@),
{
    let o = chars_of(official);
    let p = chars_of(prefix);
    if crate::text::slice_starts_with(o.as_slice(), p.as_slice()) {
        let mut s = string_from(base);
        let rest = slice_sub(o.as_slice(), p.len(), o.len());
        proof {
            assert(rest@ =~= o@.skip(p@.len() as int));
        }
        crate::text::push_chars(&mut s, rest.as_slice());
        s
    } else {
        string_from(official)
    }
}

/// The gh-proxy mirror address of a GitHub API address (other addresses unchanged).
pub fn mirror_url(official: &str) -> (res: String)
    ensures
        res@ == rebased(official@, "https://api.github.com"@, API_MIRROR_BASE@),
{
    rebase(official, "https://api.github.com", API_MIRROR_BASE)
}

/// The gh-proxy mirror address of a GitHub download address (other addresses unchanged).
pub fn download_mirror_url(official: &str) -> (res: String)
    ensures
        res@ == rebased(official@, "https://github.com"@, DOWNLOAD_MIRROR_BASE@),
{
    rebase(official, "https://github.com", DOWNLOAD_MIRROR_BASE)
}

/// Address of the latest release of the variant's repository.
pub fn latest_release_url(variant: &DownloadVariant) -> (res: String)
    ensures
        res@ == api_base_of(*variant is WinRocm714) + "/releases/latest"@,
{
    let mut s = string_from(api_base(variant));
    push_str(&mut s, "/releases/latest");
    s
}

/// Address of the release with tag `tag`.
pub fn release_by_tag_url(tag: &str, is_rocm: bool) -> (res: String)
    ensures
        res@ == api_base_of(is_rocm) + "/releases/tags/"@ + tag@,
{
    let mut s = if is_rocm {
        string_from("https://api.github.com/repos/lemonade-sdk/llamacpp-rocm")
    } else {
        string_from("https://api.github.com/repos/ggml-org/llama.cpp")
    };
    push_str(&mut s, "/releases/tags/");
    push_str(&mut s, tag);
    s
}

/// Address of the ten most recent releases.
pub fn recent_releases_url(variant: &DownloadVariant) -> (res: String)
    ensures
        res@ == api_base_of(*variant is WinRocm714) + "/releases?per_page=10"@,
{
    let mut s = string_from(api_base(variant));
    push_str(&mut s, "/releases?per_page=10");
    s
}

/// The stable channel resolves the nightly build named by the latest release;
/// any other channel takes the newest nightly release directly.
pub fn is_stable_channel(release_channel: &str) -> (res: bool)
    ensures
        res == (release_channel@ == "stable"@),
{
    let c = chars_of(release_channel);
    str_eq(c.as_slice(), "stable")
}

/// A nightly tag: `b` followed by at least one digit and digits only.
pub open spec fn nightly_tag(tag: Seq<char>) -> bool {
    tag.len() > 1 && tag[0] == 'b' && forall|i: int| 1 <= i < tag.len() ==> is_digit(#[trigger] tag[i])
}

pub fn is_nightly_tag(tag: &str) -> (res: bool)
    ensures
        res == nightly_tag(tag@),
{
    let t = chars_of(tag);
    if t.len() <= 1 || t[0] != 'b' {
        return false;
    }
    let mut i: usize = 1;
    while i < t.len()
        invariant
            1 <= i <= t@.len(),
            t@ == tag@,
            forall|k: int| 1 <= k < i ==> is_digit(#[trigger] t@[k]),
        decreases t@.len() - i,
    {
        if !crate::text::char_is_digit(t[i]) {
            proof {
                assert(!is_digit(t@[i as int]));
            }
            return false;
        }
        i = i + 1;
    }
    true
}

/// Index of the first release whose tag is a nightly tag.
pub fn first_nightly(tags: &[String]) -> (res: Option<usize>)
    ensures
        match res {
            Some(i) => i < tags@.len() && nightly_tag(tags@[i as int]@) && forall|j: int|
                0 <= j < i ==> !nightly_tag(#[trigger] tags@[j]@),
            None => forall|j: int| 0 <= j < tags@.len() ==> !nightly_tag(#[trigger] tags@[j]@),
        },
{
    let mut i: usize = 0;
    while i < tags.len()
        invariant
            i <= tags@.len(),
            forall|j: int| 0 <= j < i ==> !nightly_tag(#[trigger] tags@[j]@),
        decreases tags@.len() - i,
    {
        if is_nightly_tag(tags[i].as_str()) {
            return Some(i);
        }
        i = i + 1;
    }
    None
}

/// The nightly tag held by the `nightly-tag.txt` asset: its trimmed text, if any.
pub fn nightly_tag_from_body(body: &str) -> (res: Option<String>)
    ensures
        match res {
            Some(t) => t@ == trim(body@) && t@.len() > 0,
            None => trim(body@).len() == 0,
        },
{
    let b = chars_of(body);
    let t = trim_vec(b.as_slice());
    if t.len() == 0 {
        None
    } else {
        Some(string_of(t.as_slice()))
    }
}

/// Index of the first asset named `name`.
pub fn find_asset_named(assets: &[Asset], name: &str) -> (res: Option<usize>)
    ensures
        match res {
            Some(i) => i < assets@.len() && assets@[i as int].name@ == name@ && forall|j: int|
                0 <= j < i ==> (#[trigger] assets@[j]).name@ != name@,
            None => forall|j: int| 0 <= j < assets@.len() ==> (#[trigger] assets@[j]).name@ != name@,
        },
{
    let mut i: usize = 0;
    while i < assets.len()
        invariant
            i <= assets@.len(),
            forall|j: int| 0 <= j < i ==> (#[trigger] assets@[j]).name@ != name@,
        decreases assets@.len() - i,
    {
        let n = chars_of(assets[i].name.as_str());
        if str_eq(n.as_slice(), name) {
            return Some(i);
        }
        i = i + 1;
    }
    None
}

// ───────────── asset choice ─────────────

/// A ROCm pattern is a regular expression; the others are plain text.
pub open spec fn is_regex_pattern(p: Seq<char>) -> bool {
    contains(p, ".*"@) || contains(p, "\\."@)
}

/// Asset `name` fits the variant: not a CUDA runtime package (`cudart-`), the
/// variant's extension, and the pattern matched (as a regular expression for
/// ROCm, as a substring otherwise).
pub open spec fn asset_fits(name: Seq<char>, pattern: Seq<char>, ext: Seq<char>) -> bool {
    asset_fits_given(name, pattern, ext, regex_match(pattern, name))
}

pub open spec fn asset_fits_variant(name: Seq<char>, v: DownloadVariant) -> bool {
    asset_fits(name, asset_pattern(v), asset_extension(v))
}

/// Whether asset `name` fits, given what the regular expression said of it
/// (`regex_hit`, as `pattern_matches` gives it; only a ROCm pattern asks).
pub open spec fn asset_fits_given(
    name: Seq<char>,
    pattern: Seq<char>,
    ext: Seq<char>,
    regex_hit: Option<bool>,
) -> bool {
    &&& !starts_with(name, "cudart-"@)
    &&& ends_with(name, ext)
    &&& if is_regex_pattern(pattern) {
        regex_hit == Some(true)
    } else {
        contains(name, pattern)
    }
}

/// Whether asset `name` fits the pattern and extension, given the regular
/// expression's answer (see `asset_fits_given`).
pub fn asset_fits_with(name: &str, pattern: &str, ext: &str, regex_hit: Option<bool>) -> (res: bool)
    ensures
        res == asset_fits_given(name@, pattern@, ext@, regex_hit),
{
    let n = chars_of(name);
    if str_starts_with(n.as_slice(), "cudart-") {
        return false;
    }
    if !str_ends_with(n.as_slice(), ext) {
        return false;
    }
    let p = chars_of(pattern);
    let is_regex = str_contains(p.as_slice(), ".*") || str_contains(p.as_slice(), "\\.");
    if is_regex {
        match regex_hit {
            Some(m) => m,
            None => false,
        }
    } else {
        crate::text::slice_contains(n.as_slice(), p.as_slice())
    }
}

fn asset_fits_exec(name: &str, pattern: &str, ext: &str) -> (res: bool)
    ensures
        res == asset_fits(name@, pattern@, ext@),
{
    let p = chars_of(pattern);
    let is_regex = str_contains(p.as_slice(), ".*") || str_contains(p.as_slice(), "\\.");
    let hit = if is_regex {
        pattern_matches(pattern, name)
    } else {
        None
    };
    asset_fits_with(name, pattern, ext, hit)
}

/// The first asset that fits the variant.
pub fn pick_asset<'a>(assets: &'a [Asset], variant: &'a DownloadVariant) -> (res: Option<&'a Asset>)
    ensures
        match res {
            Some(a) => exists|i: int|
                0 <= i < assets@.len() && a == &assets@[i] && asset_fits_variant(
                    assets@[i].name@,
                    *variant,
                ) && forall|j: int|
                    0 <= j < i ==> !asset_fits_variant(#[trigger] assets@[j].name@, *variant),
            None => forall|j: int|
                0 <= j < assets@.len() ==> !asset_fits_variant(#[trigger] assets@[j].name@, *variant),
        },
{
    let pattern = variant.asset_name();
    let ext = variant.extension();
    let mut i: usize = 0;
    while i < assets.len()
        invariant
            i <= assets@.len(),
            pattern@ == asset_pattern(*variant),
            ext@ == asset_extension(*variant),
            forall|j: int| 0 <= j < i ==> !asset_fits_variant(#[trigger] assets@[j].name@, *variant),
        decreases assets@.len() - i,
    {
        if asset_fits_exec(assets[i].name.as_str(), pattern.as_str(), ext) {
            return Some(&assets[i]);
        }
        i = i + 1;
    }
    None
}

/// The asset name without `.tar.gz` or `.zip`: the directory it unpacks to.
pub open spec fn stem_of(name: Seq<char>) -> Seq<char> {
    if ends_with(name, ".tar.gz"@) {
        name.take(name.len() - 7)
    } else if ends_with(name, ".zip"@) {
        name.take(name.len() - 4)
    } else {
        name
    }
}

pub fn asset_stem(name: &str) -> (res: String)
    ensures
        res@ == stem_of(name@),
{
    let n = chars_of(name);
    proof {
        reveal_strlit(".tar.gz");
        reveal_strlit(".zip");
    }
    if str_ends_with(n.as_slice(), ".tar.gz") {
        let t = slice_sub(n.as_slice(), 0, n.len() - 7);
        proof {
            assert(t@ =~= n@.take(n@.len() - 7));
        }
        string_of(t.as_slice())
    } else if str_ends_with(n.as_slice(), ".zip") {
        let t = slice_sub(n.as_slice(), 0, n.len() - 4);
        proof {
            assert(t@ =~= n@.take(n@.len() - 4));
        }
        string_of(t.as_slice())
    } else {
        string_from(name)
    }
}

/// Error when no asset fits: `no matching asset for pattern '<pattern>' in release <tag>`.
pub fn no_matching_asset_message(variant: &DownloadVariant, tag: &str) -> (res: String)
    ensures
        res@ == "no matching asset for pattern '"@ + asset_pattern(*variant) + "' in release "@
            + tag@,
{
    let mut s = string_from("no matching asset for pattern '");
    let p = variant.asset_name();
    push_str(&mut s, p.as_str());
    push_str(&mut s, "' in release ");
    push_str(&mut s, tag);
    s
}

/// The asset of a stable release that names its nightly build.
pub const NIGHTLY_TAG_ASSET: &'static str = "nightly-tag.txt";

/// Error when none of the recent releases has a nightly (`b<number>`) tag.
pub const ERR_NO_NIGHTLY_RELEASE: &'static str = "no nightly release (b[NUM] tag) found";

/// Error when the unpacked archive holds no server binary.
pub const ERR_SERVER_NOT_FOUND: &'static str = "llama-server binary not found in extracted files";

/// Error when the latest release holds no `nightly-tag.txt`.
pub fn no_nightly_asset_message(tag: &str) -> (res: String)
    ensures
        res@ == "no nightly-tag.txt asset in release "@ + tag@,
{
    let mut s = string_from("no nightly-tag.txt asset in release ");
    push_str(&mut s, tag);
    s
}

// ───────────── state transitions ─────────────

impl DownloadStatus {
    /// A download is running.
    pub fn is_busy(&self) -> (res: bool)
        ensures
            res == (self.state is Running),
    {
        match self.state {
            DownloadState::Running => true,
            _ => false,
        }
    }

    /// Starts a download unless one is running (a second click is ignored);
    /// says whether it starts.
    pub fn begin(&mut self) -> (started: bool)
        ensures
            started == !(old(self).state is Running),
            started ==> final(self).state == DownloadState::Running && final(self).phase
                == Phase::FetchingRelease && final(self).done == 0 && final(self).total is None,
            !started ==> final(self).state == old(self).state && final(self).phase == old(
                self,
            ).phase && final(self).done == old(self).done && final(self).total == old(self).total,
    {
        if self.is_busy() {
            return false;
        }
        self.state = DownloadState::Running;
        self.phase = Phase::FetchingRelease;
        self.done = 0;
        self.total = None;
        true
    }

    /// Enters a phase of a running download.
    pub fn set_running(&mut self, phase: Phase, done: u64, total: Option<u64>)
        ensures
            final(self).state == DownloadState::Running,
            final(self).phase == phase,
            final(self).done == done,
            final(self).total == total,
    {
        self.state = DownloadState::Running;
        self.phase = phase;
        self.done = done;
        self.total = total;
    }

    /// Bytes received so far.
    pub fn record_progress(&mut self, done: u64)
        ensures
            final(self).state == old(self).state,
            final(self).phase == old(self).phase,
            final(self).done == done,
            final(self).total == old(self).total,
    {
        self.done = done;
    }

    /// End of the download: a cancelled one returns to idle whatever happened;
    /// otherwise success with the binary's path, or the error met.
    pub fn finish(&mut self, result: Result<String, String>, cancelled: bool)
        ensures
            cancelled ==> final(self).state == DownloadState::Idle,
            !cancelled ==> match result {
                Ok(path) => final(self).state == DownloadState::Success(path),
                Err(m) => final(self).state == DownloadState::Error(m),
            },
            final(self).phase == old(self).phase,
            final(self).done == old(self).done,
            final(self).total == old(self).total,
    {
        if cancelled {
            self.state = DownloadState::Idle;
            return ;
        }
        match result {
            Ok(path) => {
                self.state = DownloadState::Success(path);
            },
            Err(m) => {
                self.state = DownloadState::Error(m);
            },
        }
    }

    /// The downloader thread could not be started.
    pub fn spawn_failed(&mut self, detail: &str)
        ensures
            final(self).state matches DownloadState::Error(m) && m@
                == "failed to spawn downloader thread: "@ + detail@,
            final(self).phase == old(self).phase,
            final(self).done == old(self).done,
            final(self).total == old(self).total,
    {
        let mut s = string_from("failed to spawn downloader thread: ");
        push_str(&mut s, detail);
        self.state = DownloadState::Error(s);
    }
}

// ───────────── locating the server binary ─────────────

/// Index of the first sub-directory named `name`.
pub open spec fn first_named(dirs: Seq<DirNode>, name: Seq<char>) -> Option<int>
    decreases dirs.len(),
{
    if dirs.len() == 0 {
        None
    } else if dirs[0].name@ == name {
        Some(0)
    } else {
        match first_named(dirs.drop_first(), name) {
            Some(i) => Some(i + 1),
            None => None,
        }
    }
}

pub open spec fn child_named(n: DirNode, name: Seq<char>) -> Option<DirNode> {
    match first_named(n.dirs@, name) {
        Some(i) => Some(n.dirs@[i]),
        None => None,
    }
}

/// `<root>/<stem>/build/bin`, the directory of the official archives.
pub open spec fn standard_bin_dir(root: DirNode, stem: Seq<char>) -> Option<DirNode> {
    match child_named(root, stem) {
        Some(a) => match child_named(a, "build"@) {
            Some(b) => child_named(b, "bin"@),
            None => None,
        },
        None => None,
    }
}

pub open spec fn server_exe(windows: bool) -> Seq<char> {
    if windows {
        "llama-server.exe"@
    } else {
        "llama-server"@
    }
}

/// The server binary's file name (see `server_exe`).
pub fn server_exe_name(windows: bool) -> (res: &'static str)
    ensures
        res@ == server_exe(windows),
{
    if windows {
        "llama-server.exe"
    } else {
        "llama-server"
    }
}

/// The directory holding the server binary: the standard directory of the
/// official archives if it holds it, else the first directory found
/// breadth-first (to `MAX_SEARCH_DEPTH`, `llama` directories first).
pub open spec fn server_binary_dir(root: DirNode, stem: Seq<char>, windows: bool) -> Option<DirNode> {
    match standard_bin_dir(root, stem) {
        Some(b) if holds(b, server_exe(windows), Probe::File) => Some(b),
        _ => {
            let order = search_order(root, MAX_SEARCH_DEPTH as nat, "llama"@, false);
            match first_holding(order, server_exe(windows), Probe::File) {
                Some(i) => Some(order[i]),
                None => None,
            }
        },
    }
}

fn child_named_exec<'a>(n: &'a DirNode, name: &str) -> (res: Option<&'a DirNode>)
    ensures
        match child_named(*n, name@) {
            Some(c) => res == Some(&c),
            None => res is None,
        },
{
    let mut i: usize = 0;
    while i < n.dirs.len()
        invariant
            i <= n.dirs@.len(),
            forall|j: int| 0 <= j < i ==> (#[trigger] n.dirs@[j]).name@ != name@,
        decreases n.dirs@.len() - i,
    {
        let d = chars_of(n.dirs[i].name.as_str());
        if str_eq(d.as_slice(), name) {
            proof {
                lemma_first_named(n.dirs@, name@, i as int);
            }
            return Some(&n.dirs[i]);
        }
        i = i + 1;
    }
    proof {
        lemma_first_named_none(n.dirs@, name@);
    }
    None
}

proof fn lemma_first_named(dirs: Seq<DirNode>, name: Seq<char>, i: int)
    requires
        0 <= i < dirs.len(),
        dirs[i].name@ == name,
        forall|j: int| 0 <= j < i ==> (#[trigger] dirs[j]).name@ != name,
    ensures
        first_named(dirs, name) == Some(i),
    decreases i,
{
    if i > 0 {
        let t = dirs.drop_first();
        assert forall|j: int| 0 <= j < i - 1 implies (#[trigger] t[j]).name@ != name by {
            assert(t[j] == dirs[j + 1]);
        }
        lemma_first_named(t, name, i - 1);
    }
}

proof fn lemma_first_named_none(dirs: Seq<DirNode>, name: Seq<char>)
    requires
        forall|j: int| 0 <= j < dirs.len() ==> (#[trigger] dirs[j]).name@ != name,
    ensures
        first_named(dirs, name) is None,
    decreases dirs.len(),
{
    if dirs.len() > 0 {
        let t = dirs.drop_first();
        assert forall|j: int| 0 <= j < t.len() implies (#[trigger] t[j]).name@ != name by {
            assert(t[j] == dirs[j + 1]);
        }
        lemma_first_named_none(t, name);
    }
}

/// The directory that holds llama-server in the unpacked archive listed by
/// `extract_root` (see `server_binary_dir`).
pub fn find_server_binary<'a>(extract_root: &'a DirNode, asset_stem: &str, windows: bool) -> (res: Option<&'a DirNode>)
    ensures
        match server_binary_dir(*extract_root, asset_stem@, windows) {
            Some(b) => res == Some(&b),
            None => res is None,
        },
{
    let exe_name = server_exe_name(windows);
    if let Some(a) = child_named_exec(extract_root, asset_stem) {
        if let Some(b) = child_named_exec(a, "build") {
            if let Some(bin) = child_named_exec(b, "bin") {
                if holds_file(bin, exe_name) {
                    return Some(bin);
                }
            }
        }
    }
    bfs_find(extract_root, exe_name, Probe::File, "llama", false, MAX_SEARCH_DEPTH)
}

fn holds_file(n: &DirNode, name: &str) -> (res: bool)
    ensures
        res == holds(*n, name@, Probe::File),
{
    crate::dirtree::dir_holds(n, name, Probe::File)
}

// ───────────── after a transfer ─────────────

/// A transfer is complete when it wrote as many bytes as the release declares;
/// otherwise the error says what came.
pub fn check_download_size(expected: u64, actual: u64) -> (res: Result<(), String>)
    ensures
        match res {
            Ok(()) => expected == actual,
            Err(m) => expected != actual && m@ == "incomplete download: expected "@ + crate::text::dec(
                expected as nat,
            ) + " bytes, got "@ + crate::text::dec(actual as nat),
        },
{
    if expected == actual {
        return Ok(());
    }
    let mut m = string_from("incomplete download: expected ");
    push_str(&mut m, crate::text::fmt_u64(expected).as_str());
    push_str(&mut m, " bytes, got ");
    push_str(&mut m, crate::text::fmt_u64(actual).as_str());
    Err(m)
}

/// How a downloaded archive is unpacked.
#[derive(Clone, Copy, Debug, PartialEq, Eq)]
pub enum ArchiveKind {
    Zip,
    TarGz,
    /// Left as it is.
    Other,
}

/// The archive kind by file name: `.zip`, else `.tar.gz`, else other.
pub fn archive_kind(name: &str) -> (res: ArchiveKind)
    ensures
        res == if ends_with(name@, ".zip"@) {
            ArchiveKind::Zip
        } else if ends_with(name@, ".tar.gz"@) {
            ArchiveKind::TarGz
        } else {
            ArchiveKind::Other
        },
{
    let cs = chars_of(name);
    if str_ends_with(cs.as_slice(), ".zip") {
        ArchiveKind::Zip
    } else if str_ends_with(cs.as_slice(), ".tar.gz") {
        ArchiveKind::TarGz
    } else {
        ArchiveKind::Other
    }
}

/// The `download_variant` setting with the old value `gpu` replaced by the
/// platform's GPU build (`vulkan` on Linux, `cuda124` elsewhere); other
/// values stay.
pub fn normalize_download_variant(value: &str, platform: Platform) -> (res: String)
    ensures
        res@ == if value@ == "gpu"@ {
            if platform.spec_is_linux() {
                "vulkan"@
            } else {
                "cuda124"@
            }
        } else {
            value@
        },
{
    let v = chars_of(value);
    if str_eq(v.as_slice(), "gpu") {
        if platform.is_linux() {
            string_from("vulkan")
        } else {
            string_from("cuda124")
        }
    } else {
        string_from(value)
    }
}

/// How one transfer of the asset from one source ended.
pub enum TransferOutcome {
    /// The user cancelled during the transfer.
    Cancelled,
    /// The transfer failed, with the error's text.
    Failed(String),
    /// The transfer ended; the file holds this many bytes.
    Completed(u64),
}

/// What follows one source's transfer.
#[derive(Debug, PartialEq, Eq)]
pub enum SourceStep {
    /// The file is complete: keep it.
    Accept,
    /// Try the next source (the mirror); the reason is kept as the last error.
    TryNext(String),
    /// Stop: the download was cancelled (the partial file goes).
    Cancel,
}

/// The message of a cancelled download.
pub const CANCELLED: &'static str = "download cancelled";

/// After one source: a cancelled transfer stops the download, a failed one
/// moves to the next source with its error, and a finished one is kept when
/// its size is the asset's, else the next source is tried with the size
/// error (see `check_download_size`).
pub fn source_step(expected: u64, outcome: TransferOutcome) -> (res: SourceStep)
    ensures
        match outcome {
            TransferOutcome::Cancelled => res == SourceStep::Cancel,
            TransferOutcome::Failed(e) => res == SourceStep::TryNext(e),
            TransferOutcome::Completed(actual) => if actual == expected {
                res == SourceStep::Accept
            } else {
                res matches SourceStep::TryNext(m) && m@ == "incomplete download: expected "@
                    + crate::text::dec(expected as nat) + " bytes, got "@ + crate::text::dec(
                    actual as nat,
                )
            },
        },
{
    match outcome {
        TransferOutcome::Cancelled => SourceStep::Cancel,
        TransferOutcome::Failed(e) => SourceStep::TryNext(e),
        TransferOutcome::Completed(actual) => match check_download_size(expected, actual) {
            Ok(()) => SourceStep::Accept,
            Err(m) => SourceStep::TryNext(m),
        },
    }
}

/// After the sources: no source gave a complete file means a network error;
/// a cancel asked for meanwhile cancels; otherwise the file is unpacked next.
pub fn after_sources(accepted: bool, cancel_requested: bool) -> (res: Result<(), String>)
    ensures
        match res {
            Ok(()) => accepted && !cancel_requested,
            Err(m) => if !accepted {
                m@ == ERR_NETWORK@
            } else {
                cancel_requested && m@ == CANCELLED@
            },
        },
{
    if !accepted {
        return Err(string_from(ERR_NETWORK));
    }
    if cancel_requested {
        return Err(string_from(CANCELLED));
    }
    Ok(())
}

} // verus!
