//! Settings of the launcher: the GPU-layer setting, the stored defaults, the
//! recognised binary names and the search for the binaries next to the launcher.
use vstd::prelude::*;
use crate::dirtree::{bfs_find, first_holding, lowercase_chars, lowercase_text, search_order, DirNode, Probe};
use crate::platform::Platform;
use crate::text::{
    chars_of, dec, fmt_u64, lower, parse_unsigned, parse_unsigned_exec, push_str, str_eq,
    string_from, trim, trim_vec,
};
use vstd::utf8::is_ascii_chars;

verus! {

/// File the settings are stored in, next to the executable.
pub const CONFIG_FILE: &'static str = "llama_cpp_launcher_settings.json";

/// Deepest sub-directory searched for the binaries.
pub const MAX_DEPTH: usize = 4;

/// How many model layers are offloaded to the GPU.
#[derive(Debug, Clone, Copy, PartialEq, Eq)]
pub enum GpuLayersMode {
    /// Let the server decide.
    Auto,
    /// Every layer.
    All,
    /// This many layers.
    Manual(usize),
}

/// How the setting is stored in JSON: a string or a non-negative integer.
#[derive(Debug, Clone, PartialEq, Eq)]
pub enum GpuLayersJson {
    Text(String),
    Number(u64),
}

/// The setting a stored string stands for: trimmed and lower-cased, `auto`,
/// then `all` or `999`, then a whole number; anything else is refused.
pub open spec fn gpu_layers_from_text(value: Seq<char>) -> Option<GpuLayersMode> {
    let v = lowercase_text(trim(value));
    if v == "auto"@ {
        Some(GpuLayersMode::Auto)
    } else if v == "all"@ || v == "999"@ {
        Some(GpuLayersMode::All)
    } else {
        match parse_unsigned(v, 10, usize::MAX as nat) {
            Some(n) => Some(GpuLayersMode::Manual(n as usize)),
            None => None,
        }
    }
}

pub open spec fn gpu_layers_arg(m: GpuLayersMode) -> Seq<char> {
    match m {
        GpuLayersMode::Auto => "auto"@,
        GpuLayersMode::All => "256"@,
        GpuLayersMode::Manual(n) => dec(n as nat),
    }
}


/// `stored` is how `m` is written to the settings file.
pub open spec fn stored_as(m: GpuLayersMode, stored: GpuLayersJson) -> bool {
    match m {
        GpuLayersMode::Auto => stored matches GpuLayersJson::Text(t) && t@ == "auto"@,
        GpuLayersMode::All => stored matches GpuLayersJson::Text(t) && t@ == "all"@,
        GpuLayersMode::Manual(n) => stored == GpuLayersJson::Number(n as u64),
    }
}

impl GpuLayersMode {
    /// Value of `--gpu-layers`: `auto`, `256` for all layers, or the number.
    pub fn to_arg(&self) -> (res: String)
        ensures
            res@ == gpu_layers_arg(*self),
    {
        match self {
            GpuLayersMode::Auto => string_from("auto"),
            GpuLayersMode::All => string_from("256"),
            GpuLayersMode::Manual(n) => fmt_u64(*n as u64),
        }
    }

    /// The stored form: `"auto"`, `"all"`, or the number.
    pub fn to_json(&self) -> (res: GpuLayersJson)
        ensures
            stored_as(*self, res),
    {
        match self {
            GpuLayersMode::Auto => GpuLayersJson::Text(string_from("auto")),
            GpuLayersMode::All => GpuLayersJson::Text(string_from("all")),
            GpuLayersMode::Manual(n) => GpuLayersJson::Number(*n as u64),
        }
    }

    /// Reads a stored string (see `gpu_layers_from_text`).
    pub fn from_text(value: &str) -> (res: Option<GpuLayersMode>)
        ensures
            res == gpu_layers_from_text(value@),
    {
        let cs = chars_of(value);
        let t = trim_vec(cs.as_slice());
        let v = lowercase_chars(t.as_slice());
        if str_eq(v.as_slice(), "auto") {
            Some(GpuLayersMode::Auto)
        } else if str_eq(v.as_slice(), "all") || str_eq(v.as_slice(), "999") {
            Some(GpuLayersMode::All)
        } else {
            match parse_unsigned_exec(v.as_slice(), 10, usize::MAX as u64) {
                Some(n) => Some(GpuLayersMode::Manual(n as usize)),
                None => None,
            }
        }
    }

    /// Reads the stored form: a string as `from_text`, a number as that many layers.
    pub fn from_json(value: &GpuLayersJson) -> (res: Option<GpuLayersMode>)
        ensures
            res == match value {
                GpuLayersJson::Text(t) => gpu_layers_from_text(t@),
                GpuLayersJson::Number(n) => Some(GpuLayersMode::Manual(*n as usize)),
            },
    {
        match value {
            GpuLayersJson::Text(t) => GpuLayersMode::from_text(t.as_str()),
            GpuLayersJson::Number(n) => Some(GpuLayersMode::Manual(*n as usize)),
        }
    }
}

/// Reading back what was stored gives the same setting.
pub proof fn gpu_layers_round_trip(m: GpuLayersMode, stored: GpuLayersJson)
    requires
        stored_as(m, stored),
    ensures
        match stored {
            GpuLayersJson::Text(t) => gpu_layers_from_text(t@),
            GpuLayersJson::Number(n) => Some(GpuLayersMode::Manual(n as usize)),
        } == Some(m),
{
    match m {
        GpuLayersMode::Auto => {
            reveal_strlit("auto");
            lemma_trim_plain("auto"@);
            assert(trim("auto"@) == "auto"@);
            assert(is_ascii_chars("auto"@));
            assert(lower("auto"@) =~= "auto"@);
            assert(lowercase_text(trim("auto"@)) == "auto"@);
            assert(gpu_layers_from_text("auto"@) == Some(GpuLayersMode::Auto));
            if let GpuLayersJson::Text(t) = stored {
                assert(t@ == "auto"@);
            }
        },
        GpuLayersMode::All => {
            reveal_strlit("all");
            reveal_strlit("auto");
            lemma_trim_plain("all"@);
            assert(trim("all"@) == "all"@);
            assert(is_ascii_chars("all"@));
            assert(lower("all"@) =~= "all"@);
            assert("all"@.len() != "auto"@.len());
            assert(gpu_layers_from_text("all"@) == Some(GpuLayersMode::All));
            if let GpuLayersJson::Text(t) = stored {
                assert(t@ == "all"@);
            }
        },
        GpuLayersMode::Manual(n) => {},
    }
}

proof fn lemma_trim_plain(s: Seq<char>)
    requires
        s.len() > 0,
        !crate::text::is_white_space(s[0]),
        !crate::text::is_white_space(s.last()),
    ensures
        trim(s) == s,
{
}

// ───────────── stored defaults ─────────────

/// `--flash-attn`: let the server decide.
pub fn default_flash_attn() -> (res: String)
    ensures
        res@ == "auto"@,
{
    string_from("auto")
}

/// `--load-mode`: `auto` passes nothing (older `--mmap`/`--mlock` behaviour).
pub fn default_load_mode() -> (res: String)
    ensures
        res@ == "auto"@,
{
    string_from("auto")
}

/// `--threads`: -1 passes nothing.
pub fn default_threads() -> (res: i64)
    ensures
        res == -1,
{
    -1
}

/// `--threads-batch`: -1 passes nothing.
pub fn default_threads_batch() -> (res: i64)
    ensures
        res == -1,
{
    -1
}

/// `--n-predict`: -1 passes nothing (unbounded generation).
pub fn default_n_predict() -> (res: i64)
    ensures
        res == -1,
{
    -1
}

/// `--keep`: 0 passes nothing.
pub fn default_keep_tokens() -> (res: i64)
    ensures
        res == 0,
{
    0
}

/// `--seed`: -1 passes nothing (random seed).
pub fn default_seed() -> (res: i64)
    ensures
        res == -1,
{
    -1
}

/// `--main-gpu`: the first device.
pub fn default_main_gpu() -> (res: i64)
    ensures
        res == 0,
{
    0
}

/// `--mirostat`: off.
pub fn default_mirostat() -> (res: i32)
    ensures
        res == 0,
{
    0
}

/// `--sampler-seq`: empty passes nothing.
pub fn default_sampler_seq() -> (res: String)
    ensures
        res@ == ""@,
{
    string_from("")
}

/// `--cache-prompt`: on, as in the server.
pub fn default_cache_prompt() -> (res: bool)
    ensures
        res == true,
{
    true
}

/// `--cache-reuse`: 0 passes nothing.
pub fn default_cache_reuse() -> (res: i64)
    ensures
        res == 0,
{
    0
}

/// `--context-shift`: off, as in the server.
pub fn default_context_shift() -> (res: bool)
    ensures
        res == false,
{
    false
}

/// `--json-schema`: empty passes nothing.
pub fn default_json_schema() -> (res: String)
    ensures
        res@ == ""@,
{
    string_from("")
}

/// `--grammar`: empty passes nothing.
pub fn default_grammar() -> (res: String)
    ensures
        res@ == ""@,
{
    string_from("")
}

/// `--api-key`: empty passes nothing.
pub fn default_api_key() -> (res: String)
    ensures
        res@ == ""@,
{
    string_from("")
}

/// `--api-prefix`: empty passes nothing.
pub fn default_api_prefix() -> (res: String)
    ensures
        res@ == ""@,
{
    string_from("")
}

/// `--cors-origins`: empty passes nothing.
pub fn default_cors_origins() -> (res: String)
    ensures
        res@ == ""@,
{
    string_from("")
}

/// `--numa`: empty passes nothing.
pub fn default_numa() -> (res: String)
    ensures
        res@ == ""@,
{
    string_from("")
}

/// The web client is on.
pub fn default_web_ui_enabled() -> (res: bool)
    ensures
        res == true,
{
    true
}

/// Native log time stamps are on.
pub fn default_log_timestamps() -> (res: bool)
    ensures
        res == true,
{
    true
}

/// `--log-verbosity`: info.
pub fn default_log_verbosity() -> (res: usize)
    ensures
        res == 3,
{
    3
}

/// Session timeout, in seconds.
pub fn default_session_timeout() -> (res: usize)
    ensures
        res == 600,
{
    600
}

/// The log view follows new lines.
pub fn default_auto_scroll_logs() -> (res: bool)
    ensures
        res == true,
{
    true
}

/// Address the server listens on.
pub fn default_host() -> (res: String)
    ensures
        res@ == "127.0.0.1"@,
{
    string_from("127.0.0.1")
}

/// Port the server listens on.
pub fn default_port() -> (res: u16)
    ensures
        res == 8080,
{
    8080
}

/// Parallel slots of the server.
pub fn default_parallel_slots() -> (res: usize)
    ensures
        res == 1,
{
    1
}

/// Top-k sampling.
pub fn default_top_k() -> (res: i32)
    ensures
        res == 40,
{
    40
}

/// The KV cache stays on the GPU.
pub fn default_kv_offload() -> (res: bool)
    ensures
        res == true,
{
    true
}

/// Cache type of the K and V caches.
pub fn default_cache_type() -> (res: String)
    ensures
        res@ == "f16"@,
{
    string_from("f16")
}

/// How the model is split over several GPUs.
pub fn default_split_mode() -> (res: String)
    ensures
        res@ == "none"@,
{
    string_from("none")
}

/// Port of the local RPC server.
pub fn default_rpc_port() -> (res: u16)
    ensures
        res == 50052,
{
    50052
}

/// Threads of the local RPC server.
pub fn default_rpc_threads() -> (res: usize)
    ensures
        res == 8,
{
    8
}

/// The RPC endpoints the server is pointed at.
pub fn default_rpc_endpoints() -> (res: String)
    ensures
        res@ == "127.0.0.1:50052"@,
{
    string_from("127.0.0.1:50052")
}

/// Lines shown in the log view.
pub fn default_max_log_lines() -> (res: i32)
    ensures
        res == 100,
{
    100
}

/// Logging to a file is off.
pub fn default_log_to_file() -> (res: bool)
    ensures
        res == false,
{
    false
}

/// Dark theme.
pub fn default_dark_mode() -> (res: bool)
    ensures
        res == true,
{
    true
}

/// Theme follows the system.
pub fn default_theme_mode() -> (res: String)
    ensures
        res@ == "auto"@,
{
    string_from("auto")
}

/// Accent colour.
pub fn default_accent_color() -> (res: String)
    ensures
        res@ == "#FF2D55"@,
{
    string_from("#FF2D55")
}

/// llama.cpp build downloaded by default.
pub fn default_download_variant() -> (res: String)
    ensures
        res@ == "cpu"@,
{
    string_from("cpu")
}

/// Context size, in units of 1024 tokens.
pub fn default_context() -> (res: usize)
    ensures
        res == 4,
{
    4
}

/// Batch size, in units of 1024.
pub fn default_batch_size() -> (res: usize)
    ensures
        res == 2,
{
    2
}

/// `--spec-type`: no speculative decoding.
pub fn default_spec_type() -> (res: String)
    ensures
        res@ == "none"@,
{
    string_from("none")
}

/// `--spec-draft-n-max`.
pub fn default_spec_draft_n_max() -> (res: usize)
    ensures
        res == 3,
{
    3
}

/// `--ctx-checkpoints`.
pub fn default_ctx_checkpoints() -> (res: usize)
    ensures
        res == 32,
{
    32
}

/// `--checkpoint-min-step`.
pub fn default_checkpoint_min_step() -> (res: usize)
    ensures
        res == 512,
{
    512
}

/// `--reasoning`: auto.
pub fn default_reasoning() -> (res: String)
    ensures
        res@ == "auto"@,
{
    string_from("auto")
}

/// `--reasoning-format`: auto.
pub fn default_reasoning_format() -> (res: String)
    ensures
        res@ == "auto"@,
{
    string_from("auto")
}

/// Reasoning effort: `default` passes nothing.
pub fn default_reasoning_effort() -> (res: String)
    ensures
        res@ == "default"@,
{
    string_from("default")
}

/// `--reasoning-budget`: -1 means unlimited.
pub fn default_reasoning_budget() -> (res: i32)
    ensures
        res == -1,
{
    -1
}

/// `--jinja`: on, as in newer servers.
pub fn default_jinja_enabled() -> (res: bool)
    ensures
        res == true,
{
    true
}

/// `--mmproj-auto`: on.
pub fn default_mmproj_auto() -> (res: bool)
    ensures
        res == true,
{
    true
}

/// `--mmproj-offload`: on.
pub fn default_mmproj_offload() -> (res: bool)
    ensures
        res == true,
{
    true
}

/// `--mmproj-device`: `auto` passes nothing.
pub fn default_mmproj_device() -> (res: String)
    ensures
        res@ == "auto"@,
{
    string_from("auto")
}

/// `--image-min-tokens`: 0 passes nothing.
pub fn default_image_min_tokens() -> (res: i64)
    ensures
        res == 0,
{
    0
}

/// `--image-max-tokens`: 0 passes nothing.
pub fn default_image_max_tokens() -> (res: i64)
    ensures
        res == 0,
{
    0
}

/// `--mtmd-batch-max-tokens`.
pub fn default_mtmd_batch_max_tokens() -> (res: usize)
    ensures
        res == 1024,
{
    1024
}

/// `--video-timestamp-interval`.
pub fn default_video_timestamp_interval() -> (res: usize)
    ensures
        res == 5000,
{
    5000
}

/// `--video-ffmpeg-dir`: empty passes nothing.
pub fn default_video_ffmpeg_dir() -> (res: String)
    ensures
        res@ == ""@,
{
    string_from("")
}

/// Declaration flags that are always set.
pub fn default_true() -> (res: bool)
    ensures
        res == true,
{
    true
}

/// Context and batch sizes are stored in units of 1024, at least 1.
pub fn from_raw_or_k(v: usize) -> (res: usize)
    ensures
        res == if v < 1 {
            1
        } else {
            v
        },
{
    if v < 1 {
        1
    } else {
        v
    }
}

// ───────────── binaries ─────────────

pub open spec fn server_binary_name(platform: Platform) -> Seq<char> {
    if platform.spec_is_windows() {
        "llama-server.exe"@
    } else {
        "llama-server"@
    }
}

/// `name` is the llama-server executable of the platform.
pub fn is_server_binary_name(name: &str, platform: Platform) -> (res: bool)
    ensures
        res == (name@ == server_binary_name(platform)),
{
    let n = chars_of(name);
    if platform.is_windows() {
        str_eq(n.as_slice(), "llama-server.exe")
    } else {
        str_eq(n.as_slice(), "llama-server")
    }
}

/// `name` is the RPC server executable (`ggml-rpc-server` or `rpc-server`) of the platform.
pub fn is_rpc_binary_name(name: &str, platform: Platform) -> (res: bool)
    ensures
        res == if platform.spec_is_windows() {
            name@ == "ggml-rpc-server.exe"@ || name@ == "rpc-server.exe"@
        } else {
            name@ == "ggml-rpc-server"@ || name@ == "rpc-server"@
        },
{
    let n = chars_of(name);
    if platform.is_windows() {
        str_eq(n.as_slice(), "ggml-rpc-server.exe") || str_eq(n.as_slice(), "rpc-server.exe")
    } else {
        str_eq(n.as_slice(), "ggml-rpc-server") || str_eq(n.as_slice(), "rpc-server")
    }
}

/// File name of an executable on the platform (`.exe` on Windows).
pub open spec fn exe_file_name(name: Seq<char>, platform: Platform) -> Seq<char> {
    if platform.spec_is_windows() {
        name + ".exe"@
    } else {
        name
    }
}

pub fn exe_filename(name: &str, platform: Platform) -> (res: String)
    ensures
        res@ == exe_file_name(name@, platform),
{
    let mut s = string_from(name);
    if platform.is_windows() {
        push_str(&mut s, ".exe");
    }
    s
}

/// Where the settings live, and the search for the binaries next to them.
pub struct SettingsManager {
    config_dir: String,
}

impl SettingsManager {
    /// A manager for the given configuration directory (the executable's directory).
    pub fn new(config_dir: String) -> (res: Self)
        ensures
            res.spec_config_dir() == config_dir@,
    {
        SettingsManager { config_dir }
    }

    pub closed spec fn spec_config_dir(&self) -> Seq<char> {
        self.config_dir@
    }

    /// The configuration directory (downloads go there too).
    pub fn config_dir(&self) -> (res: &str)
        ensures
            res@ == self.spec_config_dir(),
    {
        self.config_dir.as_str()
    }

    /// The directory holding the executable `exe_name`: the directory itself
    /// first, then level by level down to `MAX_DEPTH` levels; within each whole
    /// level the directories whose names hold `keyword` (ignoring case) come
    /// first, then the rest, each by lower-cased name. `tree` lists the
    /// directory searched.
    pub fn find_exe_recursive<'a>(&self, tree: &'a DirNode, exe_name: &str, keyword: &str, platform: Platform) -> (res: Option<&'a DirNode>)
        ensures
            ({
                let order = search_order(*tree, MAX_DEPTH as nat, lowercase_text(keyword@), true);
                match first_holding(order, exe_file_name(exe_name@, platform), Probe::Entry) {
                    Some(i) => res == Some(&order[i]),
                    None => res is None,
                }
            }),
    {
        let file = exe_filename(exe_name, platform);
        let k = chars_of(keyword);
        let kl = lowercase_chars(k.as_slice());
        let kls = crate::text::string_of(kl.as_slice());
        bfs_find(tree, file.as_str(), Probe::Entry, kls.as_str(), true, MAX_DEPTH)
    }

    /// The directory of llama-server: the configuration directory, or below it
    /// in directories named like `llama`.
    pub fn auto_detect_server_path<'a>(&self, tree: &'a DirNode, platform: Platform) -> (res: Option<&'a DirNode>)
        requires
            tree.path@ == self.spec_config_dir(),
        ensures
            ({
                let order = search_order(*tree, MAX_DEPTH as nat, lowercase_text("llama"@), true);
                match first_holding(order, exe_file_name("llama-server"@, platform), Probe::Entry) {
                    Some(i) => res == Some(&order[i]),
                    None => res is None,
                }
            }),
    {
        self.find_exe_recursive(tree, "llama-server", "llama", platform)
    }

    /// The directory of the RPC server (`ggml-rpc-server`), searched as for llama-server.
    pub fn auto_detect_rpc_path<'a>(&self, tree: &'a DirNode, platform: Platform) -> (res: Option<&'a DirNode>)
        requires
            tree.path@ == self.spec_config_dir(),
        ensures
            ({
                let order = search_order(*tree, MAX_DEPTH as nat, lowercase_text("llama"@), true);
                match first_holding(order, exe_file_name("ggml-rpc-server"@, platform), Probe::Entry) {
                    Some(i) => res == Some(&order[i]),
                    None => res is None,
                }
            }),
    {
        self.find_exe_recursive(tree, "ggml-rpc-server", "llama", platform)
    }
}

} // verus!
