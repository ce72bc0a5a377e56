//! The llama-server command line.
//!
//! The argument list with which the server is started, and the command text
//! shown to the user (and written into a systemd unit), which is the same
//! list after the server path.
//!
//! Floating-point parameters are not handled here: for each, the caller passes
//! the text that the value prints as and whether the value passes the test that
//! decides if the option is written.
use vstd::prelude::*;
use crate::engine::{clean_endpoints, clean_rpc_endpoints};
use crate::settings::{gpu_layers_arg, GpuLayersMode};
use crate::text::names_of;
use crate::text::{
    dec, dec_int, fmt_i64, fmt_u64, join, push_str, starts_with, str_eq, str_starts_with,
    string_from, chars_of,
};

verus! {

/// A floating-point parameter as the command line needs it.
pub struct FloatParam {
    /// How the value prints (`f32` `Display`).
    pub text: String,
    /// Whether the value passes the parameter's own test (see each field).
    pub set: bool,
}

/// The settings that the command line is built from.
pub struct LaunchSettings {
    pub server_path: String,
    pub host: String,
    pub port: u16,
    /// Context size in units of 1024 tokens.
    pub context: usize,
    pub parallel_slots: usize,
    /// Batch size in units of 1024 tokens.
    pub batch_size: usize,
    /// Micro-batch size in tokens.
    pub ubatch_tokens: usize,
    pub session_timeout: usize,
    pub gpu_layers_mode: GpuLayersMode,
    pub rpc_mode: bool,
    pub rpc_endpoints: String,
    pub temperature: String,
    pub enable_temperature: bool,
    pub top_p: String,
    pub enable_top_p: bool,
    pub top_k: i32,
    pub enable_top_k: bool,
    pub repeat_penalty: String,
    pub enable_repeat_penalty: bool,
    pub presence_penalty: String,
    pub enable_presence_penalty: bool,
    pub reasoning: String,
    pub reasoning_format: String,
    pub reasoning_effort: String,
    pub reasoning_budget: i32,
    pub reasoning_preserve: Option<bool>,
    pub chat_template: String,
    pub chat_template_file: String,
    pub jinja_enabled: bool,
    pub enable_min_p: bool,
    /// Set when above 0.
    pub min_p: FloatParam,
    pub enable_top_n_sigma: bool,
    /// Set when above 0.
    pub top_n_sigma: FloatParam,
    pub enable_xtc: bool,
    /// Set when above 0.
    pub xtc_probability: FloatParam,
    /// Set when below 1.
    pub xtc_threshold: FloatParam,
    pub enable_typical_p: bool,
    /// Set when below 1.
    pub typical_p: FloatParam,
    pub enable_mirostat: bool,
    pub mirostat: i32,
    /// Set when not 0.10.
    pub mirostat_lr: FloatParam,
    /// Set when not 5.00.
    pub mirostat_ent: FloatParam,
    pub enable_dynatemp: bool,
    /// Set when above 0.
    pub dynatemp_range: FloatParam,
    /// Set when not 1.
    pub dynatemp_exp: FloatParam,
    pub sampler_seq: String,
    pub flash_attn: String,
    pub mmproj_path: String,
    pub mmproj_auto: bool,
    pub mmproj_offload: bool,
    pub mmproj_device: String,
    pub image_min_tokens: i64,
    pub image_max_tokens: i64,
    pub mtmd_batch_max_tokens: usize,
    /// Set when farther from 4 than `f32::EPSILON`.
    pub video_fps: FloatParam,
    pub video_timestamp_interval: usize,
    pub video_ffmpeg_dir: String,
    pub alias: String,
    pub dflash_path: String,
    pub spec_type: String,
    pub enable_spec_draft_n_max: bool,
    pub spec_draft_n_max: usize,
    pub enable_spec_draft_n_min: bool,
    pub spec_draft_n_min: usize,
    pub enable_spec_draft_p_min: bool,
    pub spec_draft_p_min: String,
    pub enable_spec_draft_p_split: bool,
    pub spec_draft_p_split: String,
    pub enable_spec_draft_type_k: bool,
    pub spec_draft_type_k: String,
    pub enable_spec_draft_type_v: bool,
    pub spec_draft_type_v: String,
    pub spec_ngram_size_n: usize,
    pub spec_ngram_size_m: usize,
    pub spec_ngram_min_hits: usize,
    pub spec_ngram_mod_n_min: usize,
    pub spec_ngram_mod_n_max: usize,
    pub spec_ngram_mod_n_match: usize,
    pub kv_offload: bool,
    pub cache_type_k: String,
    pub cache_type_v: String,
    pub kv_unified: bool,
    pub swa_full: bool,
    pub load_mode: String,
    pub tensor_read_lazy: String,
    pub ctx_checkpoints: usize,
    pub checkpoint_min_step: usize,
    pub split_mode: String,
    pub tensor_split: String,
    pub cpu_moe: bool,
    pub n_cpu_moe: usize,
    pub override_tensor: String,
    pub threads: i64,
    pub threads_batch: i64,
    pub n_predict: i64,
    pub keep: i64,
    pub seed: i64,
    pub main_gpu: i64,
    pub device: String,
    pub cache_prompt: bool,
    pub cache_reuse: i64,
    pub context_shift: bool,
    pub json_schema: String,
    pub grammar: String,
    pub verbose: bool,
    pub log_timestamps: bool,
    pub log_verbosity: usize,
    pub offline_mode: bool,
    pub web_ui_enabled: bool,
    pub api_key: String,
    pub api_prefix: String,
    pub cors_origins: String,
    pub ssl_cert_file: String,
    pub ssl_key_file: String,
    pub reuse_port: bool,
    pub numa: String,
}

// ───────────── pieces of an argument list ─────────────

/// `name` when `on`.
pub open spec fn flag(on: bool, name: Seq<char>) -> Seq<Seq<char>> {
    if on {
        seq![name]
    } else {
        Seq::empty()
    }
}

/// `name value` when `on`.
pub open spec fn opt(on: bool, name: Seq<char>, value: Seq<char>) -> Seq<Seq<char>> {
    if on {
        seq![name, value]
    } else {
        Seq::empty()
    }
}

/// `yes` when `on`, else `no`.
pub open spec fn toggle(on: bool, yes: Seq<char>, no: Seq<char>) -> Seq<Seq<char>> {
    if on {
        seq![yes]
    } else {
        seq![no]
    }
}

/// `name value`.
pub open spec fn pair(name: Seq<char>, value: Seq<char>) -> Seq<Seq<char>> {
    seq![name, value]
}

/// The text held by an optional value, empty when there is none.
pub open spec fn or_empty(o: Option<Seq<char>>) -> Seq<char> {
    match o {
        Some(t) => t,
        None => Seq::empty(),
    }
}

/// A text setting that is written: not empty and not its default.
pub open spec fn given(t: Seq<char>, default: Seq<char>) -> bool {
    t.len() > 0 && t != default
}

/// `--rpc` with the cleaned endpoint list, in RPC mode (always first).
pub open spec fn rpc_args(s: LaunchSettings) -> Seq<Seq<char>> {
    opt(s.rpc_mode, "--rpc"@, clean_endpoints(s.rpc_endpoints@))
}

/// Model, address, context, slots.
pub open spec fn base_args(s: LaunchSettings, model: Seq<char>) -> Seq<Seq<char>> {
    pair("--model"@, model) + pair("--host"@, s.host@) + pair("--port"@, dec(s.port as nat)) + pair(
        "--ctx-size"@,
        dec((s.context * 1024) as nat),
    ) + pair("--parallel"@, dec(s.parallel_slots as nat))
}

/// Batch sizes and timeout as a start writes them: always.
pub open spec fn batch_args_start(s: LaunchSettings) -> Seq<Seq<char>> {
    pair("--batch-size"@, dec((s.batch_size * 1024) as nat)) + pair(
        "--ubatch-size"@,
        dec(s.ubatch_tokens as nat),
    ) + pair("--timeout"@, dec(s.session_timeout as nat))
}

/// GPU layers, then the sampling parameters that are enabled.
pub open spec fn sampling_args(s: LaunchSettings) -> Seq<Seq<char>> {
    pair("--gpu-layers"@, gpu_layers_arg(s.gpu_layers_mode)) + opt(
        s.enable_temperature,
        "--temperature"@,
        s.temperature@,
    ) + opt(s.enable_top_p, "--top-p"@, s.top_p@) + opt(
        s.enable_top_k,
        "--top-k"@,
        dec_int(s.top_k as int),
    ) + opt(s.enable_repeat_penalty, "--repeat-penalty"@, s.repeat_penalty@) + opt(
        s.enable_presence_penalty,
        "--presence-penalty"@,
        s.presence_penalty@,
    )
}

/// Reasoning options that differ from the defaults, then the chat template
/// options.
pub open spec fn reasoning_args(s: LaunchSettings) -> Seq<Seq<char>> {
    opt(given(s.reasoning@, "auto"@), "--reasoning"@, s.reasoning@) + opt(
        given(s.reasoning_format@, "auto"@),
        "--reasoning-format"@,
        s.reasoning_format@,
    ) + opt(given(s.reasoning_effort@, "default"@), "--reasoning-effort"@, s.reasoning_effort@)
        + opt(s.reasoning_budget != -1, "--reasoning-budget"@, dec_int(s.reasoning_budget as int))
        + preserve_args(s) + opt(s.chat_template@.len() > 0, "--chat-template"@, s.chat_template@) + opt(
        s.chat_template_file@.len() > 0,
        "--chat-template-file"@,
        s.chat_template_file@,
    ) + toggle(s.jinja_enabled, "--jinja"@, "--no-jinja"@)
}

/// `--reasoning-preserve` or `--no-reasoning-preserve` when the setting is made;
/// nothing when the model decides.
pub open spec fn preserve_args(s: LaunchSettings) -> Seq<Seq<char>> {
    match s.reasoning_preserve {
        Some(true) => seq!["--reasoning-preserve"@],
        Some(false) => seq!["--no-reasoning-preserve"@],
        None => Seq::empty(),
    }
}

/// The extra samplers that are enabled and set.
pub open spec fn sampler_args(s: LaunchSettings) -> Seq<Seq<char>> {
    opt(s.enable_min_p && s.min_p.set, "--min-p"@, s.min_p.text@) + opt(
        s.enable_top_n_sigma && s.top_n_sigma.set,
        "--top-n-sigma"@,
        s.top_n_sigma.text@,
    ) + xtc_args(s) + opt(s.enable_typical_p && s.typical_p.set, "--typical-p"@, s.typical_p.text@)
        + mirostat_args(s) + dynatemp_args(s) + opt(
        s.sampler_seq@.len() > 0,
        "--sampler-seq"@,
        s.sampler_seq@,
    )
}

/// XTC sampling, when enabled with a probability above 0.
pub open spec fn xtc_args(s: LaunchSettings) -> Seq<Seq<char>> {
    if s.enable_xtc && s.xtc_probability.set {
        pair("--xtc-probability"@, s.xtc_probability.text@) + opt(
            s.xtc_threshold.set,
            "--xtc-threshold"@,
            s.xtc_threshold.text@,
        )
    } else {
        Seq::empty()
    }
}

/// Mirostat sampling, when enabled with a mode other than 0.
pub open spec fn mirostat_args(s: LaunchSettings) -> Seq<Seq<char>> {
    if s.enable_mirostat && s.mirostat != 0 {
        pair("--mirostat"@, dec_int(s.mirostat as int)) + opt(
            s.mirostat_lr.set,
            "--mirostat-lr"@,
            s.mirostat_lr.text@,
        ) + opt(s.mirostat_ent.set, "--mirostat-ent"@, s.mirostat_ent.text@)
    } else {
        Seq::empty()
    }
}

/// Dynamic temperature, when enabled with a range above 0.
pub open spec fn dynatemp_args(s: LaunchSettings) -> Seq<Seq<char>> {
    if s.enable_dynatemp && s.dynatemp_range.set {
        pair("--dynatemp-range"@, s.dynatemp_range.text@) + opt(
            s.dynatemp_exp.set,
            "--dynatemp-exp"@,
            s.dynatemp_exp.text@,
        )
    } else {
        Seq::empty()
    }
}

/// Flash attention, multimodal options and the alias.
pub open spec fn media_args(s: LaunchSettings) -> Seq<Seq<char>> {
    opt(s.flash_attn@.len() > 0, "--flash-attn"@, s.flash_attn@) + opt(
        s.mmproj_path@.len() > 0,
        "--mmproj"@,
        s.mmproj_path@,
    ) + toggle(s.mmproj_auto, "--mmproj-auto"@, "--no-mmproj"@) + toggle(
        s.mmproj_offload,
        "--mmproj-offload"@,
        "--no-mmproj-offload"@,
    ) + opt(s.mmproj_device@ != "auto"@, "--mmproj-device"@, s.mmproj_device@) + opt(
        s.image_min_tokens > 0,
        "--image-min-tokens"@,
        dec_int(s.image_min_tokens as int),
    ) + opt(s.image_max_tokens > 0, "--image-max-tokens"@, dec_int(s.image_max_tokens as int))
        + opt(
        s.mtmd_batch_max_tokens != 1024,
        "--mtmd-batch-max-tokens"@,
        dec(s.mtmd_batch_max_tokens as nat),
    ) + opt(s.video_fps.set, "--video-fps"@, s.video_fps.text@) + opt(
        s.video_timestamp_interval != 5000,
        "--video-timestamp-interval"@,
        dec(s.video_timestamp_interval as nat),
    ) + opt(s.video_ffmpeg_dir@.len() > 0, "--video-ffmpeg-dir"@, s.video_ffmpeg_dir@) + opt(
        s.alias@.len() > 0,
        "--alias"@,
        s.alias@,
    )
}

/// The draft-model options, written for `draft-*` speculative types.
pub open spec fn draft_args(s: LaunchSettings) -> Seq<Seq<char>> {
    opt(s.enable_spec_draft_n_max, "--spec-draft-n-max"@, dec(s.spec_draft_n_max as nat)) + opt(
        s.enable_spec_draft_n_min,
        "--spec-draft-n-min"@,
        dec(s.spec_draft_n_min as nat),
    ) + opt(s.enable_spec_draft_p_min, "--spec-draft-p-min"@, s.spec_draft_p_min@) + opt(
        s.enable_spec_draft_p_split,
        "--spec-draft-p-split"@,
        s.spec_draft_p_split@,
    ) + opt(
        s.enable_spec_draft_type_k && s.spec_draft_type_k@.len() > 0,
        "--spec-draft-type-k"@,
        s.spec_draft_type_k@,
    ) + opt(
        s.enable_spec_draft_type_v && s.spec_draft_type_v@.len() > 0,
        "--spec-draft-type-v"@,
        s.spec_draft_type_v@,
    )
}

/// The draft-model options when the speculative type is a `draft-*` type.
pub open spec fn draft_args_for(s: LaunchSettings) -> Seq<Seq<char>> {
    if starts_with(s.spec_type@, "draft-"@) {
        draft_args(s)
    } else {
        Seq::empty()
    }
}

/// The n-gram types with size and hit options.
pub open spec fn ngram_type(t: Seq<char>) -> bool {
    t == "ngram-simple"@ || t == "ngram-map-k"@ || t == "ngram-map-k4v"@
}

/// Draft model, speculative type, draft options, n-gram sizes.
pub open spec fn spec_args(s: LaunchSettings) -> Seq<Seq<char>> {
    opt(s.dflash_path@.len() > 0, "--model-draft"@, s.dflash_path@) + opt(
        s.spec_type@ != "none"@,
        "--spec-type"@,
        s.spec_type@,
    ) + draft_args_for(s) + ngram_size_args(s)
}

/// The n-gram size and hit options, for the n-gram types that have them.
pub open spec fn ngram_size_args(s: LaunchSettings) -> Seq<Seq<char>> {
    let p = "--spec-"@ + s.spec_type@;
    if ngram_type(s.spec_type@) {
        pair(p + "-size-n"@, dec(s.spec_ngram_size_n as nat)) + pair(
            p + "-size-m"@,
            dec(s.spec_ngram_size_m as nat),
        ) + pair(p + "-min-hits"@, dec(s.spec_ngram_min_hits as nat))
    } else {
        Seq::empty()
    }
}

/// The `ngram-mod` options of a start.
pub open spec fn ngram_mod_args(s: LaunchSettings) -> Seq<Seq<char>> {
    if s.spec_type@ == "ngram-mod"@ {
        pair("--spec-ngram-mod-n-min"@, dec(s.spec_ngram_mod_n_min as nat)) + pair(
            "--spec-ngram-mod-n-max"@,
            dec(s.spec_ngram_mod_n_max as nat),
        ) + pair("--spec-ngram-mod-n-match"@, dec(s.spec_ngram_mod_n_match as nat))
    } else {
        Seq::empty()
    }
}

/// A start's n-gram-mod options, then its KV cache and loading options.
pub open spec fn kv_args_start(s: LaunchSettings) -> Seq<Seq<char>> {
    ngram_mod_args(s) + toggle(s.kv_offload, "--kv-offload"@, "--no-kv-offload"@) + opt(
        s.cache_type_k@.len() > 0,
        "--cache-type-k"@,
        s.cache_type_k@,
    ) + opt(s.cache_type_v@.len() > 0, "--cache-type-v"@, s.cache_type_v@) + opt(
        given(s.load_mode@, "auto"@),
        "--load-mode"@,
        s.load_mode@,
    ) + opt(given(s.tensor_read_lazy@, "auto"@), "--lazy-mode"@, s.tensor_read_lazy@) + flag(
        s.kv_unified,
        "--kv-unified"@,
    ) + flag(s.swa_full, "--swa-full"@)
}

/// Checkpoints and GPU placement.
pub open spec fn gpu_args(s: LaunchSettings) -> Seq<Seq<char>> {
    opt(s.ctx_checkpoints != 32, "--ctx-checkpoints"@, dec(s.ctx_checkpoints as nat)) + opt(
        s.checkpoint_min_step != 512,
        "--checkpoint-min-step"@,
        dec(s.checkpoint_min_step as nat),
    ) + opt(given(s.split_mode@, "layer"@), "--split-mode"@, s.split_mode@) + opt(
        s.tensor_split@.len() > 0,
        "--tensor-split"@,
        s.tensor_split@,
    ) + flag(s.cpu_moe, "--cpu-moe"@) + opt(
        !s.cpu_moe && s.n_cpu_moe > 0,
        "--n-cpu-moe"@,
        dec(s.n_cpu_moe as nat),
    ) + opt(s.override_tensor@.len() > 0, "--override-tensor"@, s.override_tensor@)
}

/// Threads, generation length, seed, devices.
pub open spec fn thread_args(s: LaunchSettings) -> Seq<Seq<char>> {
    opt(s.threads >= 0, "--threads"@, dec_int(s.threads as int)) + opt(
        s.threads_batch >= 0,
        "--threads-batch"@,
        dec_int(s.threads_batch as int),
    ) + opt(s.n_predict >= 0, "--n-predict"@, dec_int(s.n_predict as int)) + opt(
        s.keep > 0,
        "--keep"@,
        dec_int(s.keep as int),
    ) + opt(s.seed >= 0, "--seed"@, dec_int(s.seed as int)) + opt(
        s.main_gpu >= 0,
        "--main-gpu"@,
        dec_int(s.main_gpu as int),
    ) + opt(s.device@.len() > 0, "--device"@, s.device@)
}

/// Prompt cache, structured output, verbosity, log time stamps.
pub open spec fn output_args(s: LaunchSettings) -> Seq<Seq<char>> {
    toggle(s.cache_prompt, "--cache-prompt"@, "--no-cache-prompt"@) + opt(
        s.cache_reuse > 0,
        "--cache-reuse"@,
        dec_int(s.cache_reuse as int),
    ) + flag(s.context_shift, "--context-shift"@) + opt(
        s.json_schema@.len() > 0,
        "--json-schema"@,
        s.json_schema@,
    ) + opt(s.grammar@.len() > 0, "--grammar"@, s.grammar@) + flag(s.verbose, "--verbose"@)
        + toggle(s.log_timestamps, "--log-timestamps"@, "--no-log-timestamps"@)
}

/// API access and deployment options.
pub open spec fn api_args(s: LaunchSettings) -> Seq<Seq<char>> {
    opt(s.api_key@.len() > 0, "--api-key"@, s.api_key@) + opt(
        s.api_prefix@.len() > 0,
        "--api-prefix"@,
        s.api_prefix@,
    ) + opt(s.cors_origins@.len() > 0, "--cors-origins"@, s.cors_origins@) + opt(
        s.ssl_cert_file@.len() > 0,
        "--ssl-cert-file"@,
        s.ssl_cert_file@,
    ) + opt(s.ssl_key_file@.len() > 0, "--ssl-key-file"@, s.ssl_key_file@) + flag(
        s.reuse_port,
        "--reuse-port"@,
    ) + opt(s.numa@.len() > 0, "--numa"@, s.numa@)
}

/// The end of a start's list: log verbosity, offline mode, web UI, the MCP
/// configuration file when one was written, then the API options.
pub open spec fn tail_args_start(s: LaunchSettings, mcp_config: Option<Seq<char>>) -> Seq<
    Seq<char>,
> {
    pair("--log-verbosity"@, dec(s.log_verbosity as nat)) + flag(s.offline_mode, "--offline"@)
        + toggle(s.web_ui_enabled, "--webui"@, "--no-webui"@) + opt(
        mcp_config is Some,
        "--mcp-servers-config"@,
        or_empty(mcp_config),
    ) + api_args(s)
}

/// The arguments with which the server is started, `model` being the model
/// path to pass (the first part of a split model) and `mcp_config` the MCP
/// configuration file written for this start, if any.
pub open spec fn start_arg_list(
    s: LaunchSettings,
    model: Seq<char>,
    mcp_config: Option<Seq<char>>,
) -> Seq<Seq<char>> {
    rpc_args(s) + base_args(s, model) + batch_args_start(s) + sampling_args(s) + reasoning_args(s)
        + sampler_args(s) + media_args(s) + spec_args(s) + kv_args_start(s) + gpu_args(s)
        + thread_args(s) + output_args(s) + tail_args_start(s, mcp_config)
}

/// A command line as text: the program, a space, the arguments joined by
/// spaces.
pub open spec fn command_text(program: Seq<char>, args: Seq<Seq<char>>) -> Seq<char> {
    program + " "@ + join(args, " "@)
}

/// The sizes in units of 1024 tokens fit a `usize` once multiplied out.
pub open spec fn sizes_fit(s: LaunchSettings) -> bool {
    s.context * 1024 <= usize::MAX && s.batch_size * 1024 <= usize::MAX
}// ───────────── building the list ─────────────
//
// Each block is built in a fresh vector, piece after piece, in the order of its
// specification, so that what is built is the specification's sum as written.

fn pair_vec(name: &str, value: String) -> (res: Vec<String>)
    ensures
        names_of(res@) == pair(name@, value@),
{
    let mut v: Vec<String> = Vec::new();
    v.push(string_from(name));
    v.push(value);
    proof {
        assert(names_of(v@) =~= pair(name@, value@));
    }
    v
}

fn opt_vec(on: bool, name: &str, value: String) -> (res: Vec<String>)
    ensures
        names_of(res@) == opt(on, name@, value@),
{
    if on {
        pair_vec(name, value)
    } else {
        let v: Vec<String> = Vec::new();
        proof {
            assert(names_of(v@) =~= opt(on, name@, value@));
        }
        v
    }
}

fn flag_vec(on: bool, name: &str) -> (res: Vec<String>)
    ensures
        names_of(res@) == flag(on, name@),
{
    let mut v: Vec<String> = Vec::new();
    if on {
        v.push(string_from(name));
    }
    proof {
        assert(names_of(v@) =~= flag(on, name@));
    }
    v
}

fn toggle_vec(on: bool, yes: &str, no: &str) -> (res: Vec<String>)
    ensures
        names_of(res@) == toggle(on, yes@, no@),
{
    let mut v: Vec<String> = Vec::new();
    if on {
        v.push(string_from(yes));
    } else {
        v.push(string_from(no));
    }
    proof {
        assert(names_of(v@) =~= toggle(on, yes@, no@));
    }
    v
}

fn append_block(args: &mut Vec<String>, block: Vec<String>)
    ensures
        names_of(final(args)@) == names_of(old(args)@) + names_of(block@),
{
    let mut b = block;
    let ghost bv = names_of(b@);
    args.append(&mut b);
    proof {
        assert(names_of(args@) =~= names_of(old(args)@) + bv);
    }
}

fn push_pair(args: &mut Vec<String>, name: &str, value: String)
    ensures
        names_of(final(args)@) == names_of(old(args)@) + pair(name@, value@),
{
    append_block(args, pair_vec(name, value));
}

fn push_opt(args: &mut Vec<String>, on: bool, name: &str, value: String)
    ensures
        names_of(final(args)@) == names_of(old(args)@) + opt(on, name@, value@),
{
    append_block(args, opt_vec(on, name, value));
}

fn push_flag(args: &mut Vec<String>, on: bool, name: &str)
    ensures
        names_of(final(args)@) == names_of(old(args)@) + flag(on, name@),
{
    append_block(args, flag_vec(on, name));
}

fn push_toggle(args: &mut Vec<String>, on: bool, yes: &str, no: &str)
    ensures
        names_of(final(args)@) == names_of(old(args)@) + toggle(on, yes@, no@),
{
    append_block(args, toggle_vec(on, yes, no));
}

fn empty_block() -> (res: Vec<String>)
    ensures
        names_of(res@) == Seq::<Seq<char>>::empty(),
{
    let v: Vec<String> = Vec::new();
    proof {
        assert(names_of(v@) =~= Seq::<Seq<char>>::empty());
    }
    v
}

fn is_given(t: &String, default: &str) -> (res: bool)
    ensures
        res == given(t@, default@),
{
    let cs = chars_of(t.as_str());
    cs.len() > 0 && !str_eq(cs.as_slice(), default)
}

fn has_text(t: &String) -> (res: bool)
    ensures
        res == (t@.len() > 0),
{
    !t.as_str().is_empty()
}

fn text_is(t: &String, lit: &str) -> (res: bool)
    ensures
        res == (t@ == lit@),
{
    let cs = chars_of(t.as_str());
    str_eq(cs.as_slice(), lit)
}

fn num(n: usize) -> (res: String)
    ensures
        res@ == dec(n as nat),
{
    fmt_u64(n as u64)
}

fn int_text(n: i64) -> (res: String)
    ensures
        res@ == dec_int(n as int),
{
    fmt_i64(n)
}

fn rpc_block(s: &LaunchSettings) -> (res: Vec<String>)
    ensures
        names_of(res@) == rpc_args(*s),
{
    opt_vec(s.rpc_mode, "--rpc", clean_rpc_endpoints(s.rpc_endpoints.as_str()))
}

fn base_block(s: &LaunchSettings, model: &str) -> (res: Vec<String>)
    requires
        sizes_fit(*s),
    ensures
        names_of(res@) == base_args(*s, model@),
{
    let mut v = pair_vec("--model", string_from(model));
    push_pair(&mut v, "--host", s.host.clone());
    push_pair(&mut v, "--port", fmt_u64(s.port as u64));
    push_pair(&mut v, "--ctx-size", num(s.context * 1024));
    push_pair(&mut v, "--parallel", num(s.parallel_slots));
    v
}

fn batch_block_start(s: &LaunchSettings) -> (res: Vec<String>)
    requires
        sizes_fit(*s),
    ensures
        names_of(res@) == batch_args_start(*s),
{
    let mut v = pair_vec("--batch-size", num(s.batch_size * 1024));
    push_pair(&mut v, "--ubatch-size", num(s.ubatch_tokens));
    push_pair(&mut v, "--timeout", num(s.session_timeout));
    v
}

fn sampling_block(s: &LaunchSettings) -> (res: Vec<String>)
    ensures
        names_of(res@) == sampling_args(*s),
{
    let mut v = pair_vec("--gpu-layers", s.gpu_layers_mode.to_arg());
    push_opt(&mut v, s.enable_temperature, "--temperature", s.temperature.clone());
    push_opt(&mut v, s.enable_top_p, "--top-p", s.top_p.clone());
    push_opt(&mut v, s.enable_top_k, "--top-k", int_text(s.top_k as i64));
    push_opt(&mut v, s.enable_repeat_penalty, "--repeat-penalty", s.repeat_penalty.clone());
    push_opt(&mut v, s.enable_presence_penalty, "--presence-penalty", s.presence_penalty.clone());
    v
}

fn preserve_block(s: &LaunchSettings) -> (res: Vec<String>)
    ensures
        names_of(res@) == preserve_args(*s),
{
    match s.reasoning_preserve {
        Some(true) => flag_vec(true, "--reasoning-preserve"),
        Some(false) => flag_vec(true, "--no-reasoning-preserve"),
        None => empty_block(),
    }
}

fn reasoning_block(s: &LaunchSettings) -> (res: Vec<String>)
    ensures
        names_of(res@) == reasoning_args(*s),
{
    let mut v = opt_vec(is_given(&s.reasoning, "auto"), "--reasoning", s.reasoning.clone());
    push_opt(
        &mut v,
        is_given(&s.reasoning_format, "auto"),
        "--reasoning-format",
        s.reasoning_format.clone(),
    );
    push_opt(
        &mut v,
        is_given(&s.reasoning_effort, "default"),
        "--reasoning-effort",
        s.reasoning_effort.clone(),
    );
    push_opt(
        &mut v,
        s.reasoning_budget != -1,
        "--reasoning-budget",
        int_text(s.reasoning_budget as i64),
    );
    append_block(&mut v, preserve_block(s));
    push_opt(&mut v, has_text(&s.chat_template), "--chat-template", s.chat_template.clone());
    push_opt(
        &mut v,
        has_text(&s.chat_template_file),
        "--chat-template-file",
        s.chat_template_file.clone(),
    );
    push_toggle(&mut v, s.jinja_enabled, "--jinja", "--no-jinja");
    v
}

fn xtc_block(s: &LaunchSettings) -> (res: Vec<String>)
    ensures
        names_of(res@) == xtc_args(*s),
{
    if s.enable_xtc && s.xtc_probability.set {
        let mut v = pair_vec("--xtc-probability", s.xtc_probability.text.clone());
        push_opt(&mut v, s.xtc_threshold.set, "--xtc-threshold", s.xtc_threshold.text.clone());
        v
    } else {
        empty_block()
    }
}

fn mirostat_block(s: &LaunchSettings) -> (res: Vec<String>)
    ensures
        names_of(res@) == mirostat_args(*s),
{
    if s.enable_mirostat && s.mirostat != 0 {
        let mut v = pair_vec("--mirostat", int_text(s.mirostat as i64));
        push_opt(&mut v, s.mirostat_lr.set, "--mirostat-lr", s.mirostat_lr.text.clone());
        push_opt(&mut v, s.mirostat_ent.set, "--mirostat-ent", s.mirostat_ent.text.clone());
        v
    } else {
        empty_block()
    }
}

fn dynatemp_block(s: &LaunchSettings) -> (res: Vec<String>)
    ensures
        names_of(res@) == dynatemp_args(*s),
{
    if s.enable_dynatemp && s.dynatemp_range.set {
        let mut v = pair_vec("--dynatemp-range", s.dynatemp_range.text.clone());
        push_opt(&mut v, s.dynatemp_exp.set, "--dynatemp-exp", s.dynatemp_exp.text.clone());
        v
    } else {
        empty_block()
    }
}

fn sampler_block(s: &LaunchSettings) -> (res: Vec<String>)
    ensures
        names_of(res@) == sampler_args(*s),
{
    let mut v = opt_vec(s.enable_min_p && s.min_p.set, "--min-p", s.min_p.text.clone());
    push_opt(
        &mut v,
        s.enable_top_n_sigma && s.top_n_sigma.set,
        "--top-n-sigma",
        s.top_n_sigma.text.clone(),
    );
    append_block(&mut v, xtc_block(s));
    push_opt(&mut v, s.enable_typical_p && s.typical_p.set, "--typical-p", s.typical_p.text.clone());
    append_block(&mut v, mirostat_block(s));
    append_block(&mut v, dynatemp_block(s));
    push_opt(&mut v, has_text(&s.sampler_seq), "--sampler-seq", s.sampler_seq.clone());
    v
}

fn media_block(s: &LaunchSettings) -> (res: Vec<String>)
    ensures
        names_of(res@) == media_args(*s),
{
    let mut v = opt_vec(has_text(&s.flash_attn), "--flash-attn", s.flash_attn.clone());
    push_opt(&mut v, has_text(&s.mmproj_path), "--mmproj", s.mmproj_path.clone());
    push_toggle(&mut v, s.mmproj_auto, "--mmproj-auto", "--no-mmproj");
    push_toggle(&mut v, s.mmproj_offload, "--mmproj-offload", "--no-mmproj-offload");
    push_opt(&mut v, !text_is(&s.mmproj_device, "auto"), "--mmproj-device", s.mmproj_device.clone());
    push_opt(&mut v, s.image_min_tokens > 0, "--image-min-tokens", int_text(s.image_min_tokens));
    push_opt(&mut v, s.image_max_tokens > 0, "--image-max-tokens", int_text(s.image_max_tokens));
    push_opt(
        &mut v,
        s.mtmd_batch_max_tokens != 1024,
        "--mtmd-batch-max-tokens",
        num(s.mtmd_batch_max_tokens),
    );
    push_opt(&mut v, s.video_fps.set, "--video-fps", s.video_fps.text.clone());
    push_opt(
        &mut v,
        s.video_timestamp_interval != 5000,
        "--video-timestamp-interval",
        num(s.video_timestamp_interval),
    );
    push_opt(&mut v, has_text(&s.video_ffmpeg_dir), "--video-ffmpeg-dir", s.video_ffmpeg_dir.clone());
    push_opt(&mut v, has_text(&s.alias), "--alias", s.alias.clone());
    v
}

fn draft_block(s: &LaunchSettings) -> (res: Vec<String>)
    ensures
        names_of(res@) == draft_args(*s),
{
    let mut v = opt_vec(s.enable_spec_draft_n_max, "--spec-draft-n-max", num(s.spec_draft_n_max));
    push_opt(&mut v, s.enable_spec_draft_n_min, "--spec-draft-n-min", num(s.spec_draft_n_min));
    push_opt(&mut v, s.enable_spec_draft_p_min, "--spec-draft-p-min", s.spec_draft_p_min.clone());
    push_opt(
        &mut v,
        s.enable_spec_draft_p_split,
        "--spec-draft-p-split",
        s.spec_draft_p_split.clone(),
    );
    push_opt(
        &mut v,
        s.enable_spec_draft_type_k && has_text(&s.spec_draft_type_k),
        "--spec-draft-type-k",
        s.spec_draft_type_k.clone(),
    );
    push_opt(
        &mut v,
        s.enable_spec_draft_type_v && has_text(&s.spec_draft_type_v),
        "--spec-draft-type-v",
        s.spec_draft_type_v.clone(),
    );
    v
}

fn draft_block_for(s: &LaunchSettings) -> (res: Vec<String>)
    ensures
        names_of(res@) == draft_args_for(*s),
{
    let st = chars_of(s.spec_type.as_str());
    if str_starts_with(st.as_slice(), "draft-") {
        draft_block(s)
    } else {
        empty_block()
    }
}

fn spec_option(spec_type: &String, suffix: &str) -> (res: String)
    ensures
        res@ == "--spec-"@ + spec_type@ + suffix@,
{
    let mut t = string_from("--spec-");
    push_str(&mut t, spec_type.as_str());
    push_str(&mut t, suffix);
    t
}

fn pair_owned(name: String, value: String) -> (res: Vec<String>)
    ensures
        names_of(res@) == pair(name@, value@),
{
    let mut v: Vec<String> = Vec::new();
    v.push(name);
    v.push(value);
    proof {
        assert(names_of(v@) =~= pair(name@, value@));
    }
    v
}

fn ngram_size_block(s: &LaunchSettings) -> (res: Vec<String>)
    ensures
        names_of(res@) == ngram_size_args(*s),
{
    if text_is(&s.spec_type, "ngram-simple") || text_is(&s.spec_type, "ngram-map-k") || text_is(
        &s.spec_type,
        "ngram-map-k4v",
    ) {
        let mut v = pair_owned(spec_option(&s.spec_type, "-size-n"), num(s.spec_ngram_size_n));
        append_block(
            &mut v,
            pair_owned(spec_option(&s.spec_type, "-size-m"), num(s.spec_ngram_size_m)),
        );
        append_block(
            &mut v,
            pair_owned(spec_option(&s.spec_type, "-min-hits"), num(s.spec_ngram_min_hits)),
        );
        v
    } else {
        empty_block()
    }
}

fn spec_block(s: &LaunchSettings) -> (res: Vec<String>)
    ensures
        names_of(res@) == spec_args(*s),
{
    let mut v = opt_vec(has_text(&s.dflash_path), "--model-draft", s.dflash_path.clone());
    push_opt(&mut v, !text_is(&s.spec_type, "none"), "--spec-type", s.spec_type.clone());
    append_block(&mut v, draft_block_for(s));
    append_block(&mut v, ngram_size_block(s));
    v
}

fn ngram_mod_block(s: &LaunchSettings) -> (res: Vec<String>)
    ensures
        names_of(res@) == ngram_mod_args(*s),
{
    if text_is(&s.spec_type, "ngram-mod") {
        let mut v = pair_vec("--spec-ngram-mod-n-min", num(s.spec_ngram_mod_n_min));
        push_pair(&mut v, "--spec-ngram-mod-n-max", num(s.spec_ngram_mod_n_max));
        push_pair(&mut v, "--spec-ngram-mod-n-match", num(s.spec_ngram_mod_n_match));
        v
    } else {
        empty_block()
    }
}

fn kv_block_start(s: &LaunchSettings) -> (res: Vec<String>)
    ensures
        names_of(res@) == kv_args_start(*s),
{
    let mut v = ngram_mod_block(s);
    push_toggle(&mut v, s.kv_offload, "--kv-offload", "--no-kv-offload");
    push_opt(&mut v, has_text(&s.cache_type_k), "--cache-type-k", s.cache_type_k.clone());
    push_opt(&mut v, has_text(&s.cache_type_v), "--cache-type-v", s.cache_type_v.clone());
    push_opt(&mut v, is_given(&s.load_mode, "auto"), "--load-mode", s.load_mode.clone());
    push_opt(&mut v, is_given(&s.tensor_read_lazy, "auto"), "--lazy-mode", s.tensor_read_lazy.clone());
    push_flag(&mut v, s.kv_unified, "--kv-unified");
    push_flag(&mut v, s.swa_full, "--swa-full");
    v
}

fn gpu_block(s: &LaunchSettings) -> (res: Vec<String>)
    ensures
        names_of(res@) == gpu_args(*s),
{
    let mut v = opt_vec(s.ctx_checkpoints != 32, "--ctx-checkpoints", num(s.ctx_checkpoints));
    push_opt(
        &mut v,
        s.checkpoint_min_step != 512,
        "--checkpoint-min-step",
        num(s.checkpoint_min_step),
    );
    push_opt(&mut v, is_given(&s.split_mode, "layer"), "--split-mode", s.split_mode.clone());
    push_opt(&mut v, has_text(&s.tensor_split), "--tensor-split", s.tensor_split.clone());
    push_flag(&mut v, s.cpu_moe, "--cpu-moe");
    push_opt(&mut v, !s.cpu_moe && s.n_cpu_moe > 0, "--n-cpu-moe", num(s.n_cpu_moe));
    push_opt(&mut v, has_text(&s.override_tensor), "--override-tensor", s.override_tensor.clone());
    v
}

fn thread_block(s: &LaunchSettings) -> (res: Vec<String>)
    ensures
        names_of(res@) == thread_args(*s),
{
    let mut v = opt_vec(s.threads >= 0, "--threads", int_text(s.threads));
    push_opt(&mut v, s.threads_batch >= 0, "--threads-batch", int_text(s.threads_batch));
    push_opt(&mut v, s.n_predict >= 0, "--n-predict", int_text(s.n_predict));
    push_opt(&mut v, s.keep > 0, "--keep", int_text(s.keep));
    push_opt(&mut v, s.seed >= 0, "--seed", int_text(s.seed));
    push_opt(&mut v, s.main_gpu >= 0, "--main-gpu", int_text(s.main_gpu));
    push_opt(&mut v, has_text(&s.device), "--device", s.device.clone());
    v
}

fn output_block(s: &LaunchSettings) -> (res: Vec<String>)
    ensures
        names_of(res@) == output_args(*s),
{
    let mut v = toggle_vec(s.cache_prompt, "--cache-prompt", "--no-cache-prompt");
    push_opt(&mut v, s.cache_reuse > 0, "--cache-reuse", int_text(s.cache_reuse));
    push_flag(&mut v, s.context_shift, "--context-shift");
    push_opt(&mut v, has_text(&s.json_schema), "--json-schema", s.json_schema.clone());
    push_opt(&mut v, has_text(&s.grammar), "--grammar", s.grammar.clone());
    push_flag(&mut v, s.verbose, "--verbose");
    push_toggle(&mut v, s.log_timestamps, "--log-timestamps", "--no-log-timestamps");
    v
}

fn api_block(s: &LaunchSettings) -> (res: Vec<String>)
    ensures
        names_of(res@) == api_args(*s),
{
    let mut v = opt_vec(has_text(&s.api_key), "--api-key", s.api_key.clone());
    push_opt(&mut v, has_text(&s.api_prefix), "--api-prefix", s.api_prefix.clone());
    push_opt(&mut v, has_text(&s.cors_origins), "--cors-origins", s.cors_origins.clone());
    push_opt(&mut v, has_text(&s.ssl_cert_file), "--ssl-cert-file", s.ssl_cert_file.clone());
    push_opt(&mut v, has_text(&s.ssl_key_file), "--ssl-key-file", s.ssl_key_file.clone());
    push_flag(&mut v, s.reuse_port, "--reuse-port");
    push_opt(&mut v, has_text(&s.numa), "--numa", s.numa.clone());
    v
}

/// An optional text as a view.
pub open spec fn text_view(o: Option<String>) -> Option<Seq<char>> {
    match o {
        Some(t) => Some(t@),
        None => None,
    }
}

fn text_or_empty(o: &Option<String>) -> (res: String)
    ensures
        res@ == or_empty(text_view(*o)),
{
    match o {
        Some(t) => t.clone(),
        None => String::new(),
    }
}

fn tail_block_start(s: &LaunchSettings, mcp_config: &Option<String>) -> (res: Vec<String>)
    ensures
        names_of(res@) == tail_args_start(*s, text_view(*mcp_config)),
{
    let mut v = pair_vec("--log-verbosity", num(s.log_verbosity));
    push_flag(&mut v, s.offline_mode, "--offline");
    push_toggle(&mut v, s.web_ui_enabled, "--webui", "--no-webui");
    push_opt(&mut v, mcp_config.is_some(), "--mcp-servers-config", text_or_empty(mcp_config));
    append_block(&mut v, api_block(s));
    v
}

/// The arguments with which llama-server is started (see `start_arg_list`).
pub fn start_args(s: &LaunchSettings, model: &str, mcp_config: &Option<String>) -> (res: Vec<String>)
    requires
        sizes_fit(*s),
    ensures
        names_of(res@) == start_arg_list(*s, model@, text_view(*mcp_config)),
{
    let mut v = rpc_block(s);
    append_block(&mut v, base_block(s, model));
    append_block(&mut v, batch_block_start(s));
    append_block(&mut v, sampling_block(s));
    append_block(&mut v, reasoning_block(s));
    append_block(&mut v, sampler_block(s));
    append_block(&mut v, media_block(s));
    append_block(&mut v, spec_block(s));
    append_block(&mut v, kv_block_start(s));
    append_block(&mut v, gpu_block(s));
    append_block(&mut v, thread_block(s));
    append_block(&mut v, output_block(s));
    append_block(&mut v, tail_block_start(s, mcp_config));
    v
}

/// A command line as text: the program, a space, the arguments joined by
/// spaces.
pub fn command_line(program: &str, args: &Vec<String>) -> (res: String)
    ensures
        res@ == command_text(program@, names_of(args@)),
{
    let mut parts: Vec<Vec<char>> = Vec::new();
    let mut i: usize = 0;
    while i < args.len()
        invariant
            i <= args@.len(),
            crate::text::views(parts@) == names_of(args@).take(i as int),
        decreases args@.len() - i,
    {
        let ghost before = crate::text::views(parts@);
        parts.push(chars_of(args[i].as_str()));
        proof {
            assert(crate::text::views(parts@) =~= before.push(args@[i as int]@));
            assert(names_of(args@).take(i + 1) =~= names_of(args@).take(i as int).push(
                args@[i as int]@,
            ));
        }
        i = i + 1;
    }
    proof {
        assert(names_of(args@).take(args@.len() as int) =~= names_of(args@));
    }
    let joined = crate::text::join_exec(&parts, " ");
    let mut out = string_from(program);
    push_str(&mut out, " ");
    push_str(&mut out, joined.as_str());
    out
}

/// The launch command as shown to the user (and written into a systemd
/// unit): the server path and the very arguments a start passes, for the
/// model path given and the MCP configuration file, if any.
pub fn build_launch_command(s: &LaunchSettings, model: &str, mcp_config: &Option<String>) -> (res: String)
    requires
        sizes_fit(*s),
    ensures
        res@ == command_text(s.server_path@, start_arg_list(*s, model@, text_view(*mcp_config))),
{
    let args = start_args(s, model, mcp_config);
    command_line(s.server_path.as_str(), &args)
}

// ───────────── laws of the argument list ─────────────

/// `args` passes option `name` with the value `value`: the name, and right
/// after it the value.
pub open spec fn has_option(args: Seq<Seq<char>>, name: Seq<char>, value: Seq<char>) -> bool {
    exists|i: int| 0 <= i && i + 1 < args.len() && #[trigger] args[i] == name && args[i + 1] == value
}

proof fn lemma_option_here(name: Seq<char>, value: Seq<char>)
    ensures
        has_option(seq![name, value], name, value),
{
    let a = seq![name, value];
    assert(a[0] == name && a[1] == value);
}

proof fn lemma_option_after(a: Seq<Seq<char>>, x: Seq<Seq<char>>, name: Seq<char>, value: Seq<char>)
    requires
        has_option(x, name, value),
    ensures
        has_option(a + x, name, value),
{
    let i = choose|i: int| 0 <= i && i + 1 < x.len() && #[trigger] x[i] == name && x[i + 1] == value;
    let y = a + x;
    assert(y[a.len() + i] == x[i]);
    assert(y[a.len() + i + 1] == x[i + 1]);
}

proof fn lemma_option_before(x: Seq<Seq<char>>, b: Seq<Seq<char>>, name: Seq<char>, value: Seq<char>)
    requires
        has_option(x, name, value),
    ensures
        has_option(x + b, name, value),
{
    let i = choose|i: int| 0 <= i && i + 1 < x.len() && #[trigger] x[i] == name && x[i + 1] == value;
    let y = x + b;
    assert(y[i] == x[i]);
    assert(y[i + 1] == x[i + 1]);
}

proof fn lemma_sampling_in_start(
    s: LaunchSettings,
    model: Seq<char>,
    mcp: Option<Seq<char>>,
    name: Seq<char>,
    value: Seq<char>,
)
    requires
        has_option(sampling_args(s), name, value),
    ensures
        has_option(start_arg_list(s, model, mcp), name, value),
{
    let pre = rpc_args(s) + base_args(s, model) + batch_args_start(s);
    let mut acc = pre + sampling_args(s);
    lemma_option_after(pre, sampling_args(s), name, value);
    lemma_option_before(acc, reasoning_args(s), name, value);
    acc = acc + reasoning_args(s);
    lemma_option_before(acc, sampler_args(s), name, value);
    acc = acc + sampler_args(s);
    lemma_option_before(acc, media_args(s), name, value);
    acc = acc + media_args(s);
    lemma_option_before(acc, spec_args(s), name, value);
    acc = acc + spec_args(s);
    lemma_option_before(acc, kv_args_start(s), name, value);
    acc = acc + kv_args_start(s);
    lemma_option_before(acc, gpu_args(s), name, value);
    acc = acc + gpu_args(s);
    lemma_option_before(acc, thread_args(s), name, value);
    acc = acc + thread_args(s);
    lemma_option_before(acc, output_args(s), name, value);
    acc = acc + output_args(s);
    lemma_option_before(acc, tail_args_start(s, mcp), name, value);
    acc = acc + tail_args_start(s, mcp);
    assert(acc == start_arg_list(s, model, mcp));
}

proof fn lemma_threads_in_start(
    s: LaunchSettings,
    model: Seq<char>,
    mcp: Option<Seq<char>>,
    name: Seq<char>,
    value: Seq<char>,
)
    requires
        has_option(thread_args(s), name, value),
    ensures
        has_option(start_arg_list(s, model, mcp), name, value),
{
    let pre = rpc_args(s) + base_args(s, model) + batch_args_start(s) + sampling_args(s)
        + reasoning_args(s) + sampler_args(s) + media_args(s) + spec_args(s) + kv_args_start(s)
        + gpu_args(s);
    lemma_option_after(pre, thread_args(s), name, value);
    let acc = pre + thread_args(s);
    lemma_option_before(acc, output_args(s), name, value);
    let acc2 = acc + output_args(s);
    lemma_option_before(acc2, tail_args_start(s, mcp), name, value);
    assert(acc2 + tail_args_start(s, mcp) == start_arg_list(s, model, mcp));
}

/// Each sampling parameter that is switched on reaches the server with its own
/// value: the start list (and so the shown command) holds the option's name
/// followed by that setting's text, and always the GPU layer setting.
pub proof fn sampling_options_passed(s: LaunchSettings, model: Seq<char>, mcp: Option<Seq<char>>)
    ensures
        has_option(start_arg_list(s, model, mcp), "--gpu-layers"@, gpu_layers_arg(s.gpu_layers_mode)),
        s.enable_temperature ==> has_option(start_arg_list(s, model, mcp), "--temperature"@, s.temperature@),
        s.enable_top_p ==> has_option(start_arg_list(s, model, mcp), "--top-p"@, s.top_p@),
        s.enable_top_k ==> has_option(start_arg_list(s, model, mcp), "--top-k"@, dec_int(s.top_k as int)),
        s.enable_repeat_penalty ==> has_option(start_arg_list(s, model, mcp), "--repeat-penalty"@, s.repeat_penalty@),
        s.enable_presence_penalty ==> has_option(start_arg_list(s, model, mcp), "--presence-penalty"@, s.presence_penalty@),
{
    let g = pair("--gpu-layers"@, gpu_layers_arg(s.gpu_layers_mode));
    let t = opt(s.enable_temperature, "--temperature"@, s.temperature@);
    let p = opt(s.enable_top_p, "--top-p"@, s.top_p@);
    let k = opt(s.enable_top_k, "--top-k"@, dec_int(s.top_k as int));
    let r = opt(s.enable_repeat_penalty, "--repeat-penalty"@, s.repeat_penalty@);
    let e = opt(s.enable_presence_penalty, "--presence-penalty"@, s.presence_penalty@);
    assert(sampling_args(s) == g + t + p + k + r + e);
    lemma_option_here("--gpu-layers"@, gpu_layers_arg(s.gpu_layers_mode));
    lemma_option_before(g, t, "--gpu-layers"@, gpu_layers_arg(s.gpu_layers_mode));
    lemma_option_before(g + t, p, "--gpu-layers"@, gpu_layers_arg(s.gpu_layers_mode));
    lemma_option_before(g + t + p, k, "--gpu-layers"@, gpu_layers_arg(s.gpu_layers_mode));
    lemma_option_before(g + t + p + k, r, "--gpu-layers"@, gpu_layers_arg(s.gpu_layers_mode));
    lemma_option_before(g + t + p + k + r, e, "--gpu-layers"@, gpu_layers_arg(s.gpu_layers_mode));
    lemma_sampling_in_start(s, model, mcp, "--gpu-layers"@, gpu_layers_arg(s.gpu_layers_mode));
    if s.enable_temperature {
        lemma_option_here("--temperature"@, s.temperature@);
        lemma_option_after(g, t, "--temperature"@, s.temperature@);
        lemma_option_before(g + t, p, "--temperature"@, s.temperature@);
        lemma_option_before(g + t + p, k, "--temperature"@, s.temperature@);
        lemma_option_before(g + t + p + k, r, "--temperature"@, s.temperature@);
        lemma_option_before(g + t + p + k + r, e, "--temperature"@, s.temperature@);
        lemma_sampling_in_start(s, model, mcp, "--temperature"@, s.temperature@);
    }
    if s.enable_top_p {
        lemma_option_here("--top-p"@, s.top_p@);
        lemma_option_after(g + t, p, "--top-p"@, s.top_p@);
        lemma_option_before(g + t + p, k, "--top-p"@, s.top_p@);
        lemma_option_before(g + t + p + k, r, "--top-p"@, s.top_p@);
        lemma_option_before(g + t + p + k + r, e, "--top-p"@, s.top_p@);
        lemma_sampling_in_start(s, model, mcp, "--top-p"@, s.top_p@);
    }
    if s.enable_top_k {
        lemma_option_here("--top-k"@, dec_int(s.top_k as int));
        lemma_option_after(g + t + p, k, "--top-k"@, dec_int(s.top_k as int));
        lemma_option_before(g + t + p + k, r, "--top-k"@, dec_int(s.top_k as int));
        lemma_option_before(g + t + p + k + r, e, "--top-k"@, dec_int(s.top_k as int));
        lemma_sampling_in_start(s, model, mcp, "--top-k"@, dec_int(s.top_k as int));
    }
    if s.enable_repeat_penalty {
        lemma_option_here("--repeat-penalty"@, s.repeat_penalty@);
        lemma_option_after(g + t + p + k, r, "--repeat-penalty"@, s.repeat_penalty@);
        lemma_option_before(g + t + p + k + r, e, "--repeat-penalty"@, s.repeat_penalty@);
        lemma_sampling_in_start(s, model, mcp, "--repeat-penalty"@, s.repeat_penalty@);
    }
    if s.enable_presence_penalty {
        lemma_option_here("--presence-penalty"@, s.presence_penalty@);
        lemma_option_after(g + t + p + k + r, e, "--presence-penalty"@, s.presence_penalty@);
        lemma_sampling_in_start(s, model, mcp, "--presence-penalty"@, s.presence_penalty@);
    }
}

/// A main GPU index of 0 or more (0 is the first card) reaches the server as
/// `--main-gpu` with that number.
pub proof fn main_gpu_passed(s: LaunchSettings, model: Seq<char>, mcp: Option<Seq<char>>)
    ensures
        s.main_gpu >= 0 ==> has_option(start_arg_list(s, model, mcp), "--main-gpu"@, dec_int(s.main_gpu as int)),
{
    if s.main_gpu >= 0 {
        let a = opt(s.threads >= 0, "--threads"@, dec_int(s.threads as int)) + opt(
            s.threads_batch >= 0,
            "--threads-batch"@,
            dec_int(s.threads_batch as int),
        ) + opt(s.n_predict >= 0, "--n-predict"@, dec_int(s.n_predict as int)) + opt(
            s.keep > 0,
            "--keep"@,
            dec_int(s.keep as int),
        ) + opt(s.seed >= 0, "--seed"@, dec_int(s.seed as int));
        let m = opt(s.main_gpu >= 0, "--main-gpu"@, dec_int(s.main_gpu as int));
        let d = opt(s.device@.len() > 0, "--device"@, s.device@);
        assert(thread_args(s) == a + m + d);
        lemma_option_here("--main-gpu"@, dec_int(s.main_gpu as int));
        lemma_option_after(a, m, "--main-gpu"@, dec_int(s.main_gpu as int));
        lemma_option_before(a + m, d, "--main-gpu"@, dec_int(s.main_gpu as int));
        lemma_threads_in_start(s, model, mcp, "--main-gpu"@, dec_int(s.main_gpu as int));
    }
}

proof fn lemma_base_in_start(
    s: LaunchSettings,
    model: Seq<char>,
    mcp: Option<Seq<char>>,
    name: Seq<char>,
    value: Seq<char>,
)
    requires
        has_option(base_args(s, model), name, value),
    ensures
        has_option(start_arg_list(s, model, mcp), name, value),
{
    let pre = rpc_args(s);
    lemma_option_after(pre, base_args(s, model), name, value);
    let acc0 = pre + base_args(s, model);
    lemma_option_before(acc0, batch_args_start(s), name, value);
    let acc1 = acc0 + batch_args_start(s);
    lemma_option_before(acc1, sampling_args(s), name, value);
    let acc2 = acc1 + sampling_args(s);
    lemma_option_before(acc2, reasoning_args(s), name, value);
    let acc3 = acc2 + reasoning_args(s);
    lemma_option_before(acc3, sampler_args(s), name, value);
    let acc4 = acc3 + sampler_args(s);
    lemma_option_before(acc4, media_args(s), name, value);
    let acc5 = acc4 + media_args(s);
    lemma_option_before(acc5, spec_args(s), name, value);
    let acc6 = acc5 + spec_args(s);
    lemma_option_before(acc6, kv_args_start(s), name, value);
    let acc7 = acc6 + kv_args_start(s);
    lemma_option_before(acc7, gpu_args(s), name, value);
    let acc8 = acc7 + gpu_args(s);
    lemma_option_before(acc8, thread_args(s), name, value);
    let acc9 = acc8 + thread_args(s);
    lemma_option_before(acc9, output_args(s), name, value);
    let acc10 = acc9 + output_args(s);
    lemma_option_before(acc10, tail_args_start(s, mcp), name, value);
    let acc11 = acc10 + tail_args_start(s, mcp);
    assert(acc11 == start_arg_list(s, model, mcp));
}

proof fn lemma_batch_in_start(
    s: LaunchSettings,
    model: Seq<char>,
    mcp: Option<Seq<char>>,
    name: Seq<char>,
    value: Seq<char>,
)
    requires
        has_option(batch_args_start(s), name, value),
    ensures
        has_option(start_arg_list(s, model, mcp), name, value),
{
    let pre = rpc_args(s) + base_args(s, model);
    lemma_option_after(pre, batch_args_start(s), name, value);
    let acc0 = pre + batch_args_start(s);
    lemma_option_before(acc0, sampling_args(s), name, value);
    let acc1 = acc0 + sampling_args(s);
    lemma_option_before(acc1, reasoning_args(s), name, value);
    let acc2 = acc1 + reasoning_args(s);
    lemma_option_before(acc2, sampler_args(s), name, value);
    let acc3 = acc2 + sampler_args(s);
    lemma_option_before(acc3, media_args(s), name, value);
    let acc4 = acc3 + media_args(s);
    lemma_option_before(acc4, spec_args(s), name, value);
    let acc5 = acc4 + spec_args(s);
    lemma_option_before(acc5, kv_args_start(s), name, value);
    let acc6 = acc5 + kv_args_start(s);
    lemma_option_before(acc6, gpu_args(s), name, value);
    let acc7 = acc6 + gpu_args(s);
    lemma_option_before(acc7, thread_args(s), name, value);
    let acc8 = acc7 + thread_args(s);
    lemma_option_before(acc8, output_args(s), name, value);
    let acc9 = acc8 + output_args(s);
    lemma_option_before(acc9, tail_args_start(s, mcp), name, value);
    let acc10 = acc9 + tail_args_start(s, mcp);
    assert(acc10 == start_arg_list(s, model, mcp));
}

proof fn lemma_sampler_in_start(
    s: LaunchSettings,
    model: Seq<char>,
    mcp: Option<Seq<char>>,
    name: Seq<char>,
    value: Seq<char>,
)
    requires
        has_option(sampler_args(s), name, value),
    ensures
        has_option(start_arg_list(s, model, mcp), name, value),
{
    let pre = rpc_args(s) + base_args(s, model) + batch_args_start(s) + sampling_args(s) + reasoning_args(s);
    lemma_option_after(pre, sampler_args(s), name, value);
    let acc0 = pre + sampler_args(s);
    lemma_option_before(acc0, media_args(s), name, value);
    let acc1 = acc0 + media_args(s);
    lemma_option_before(acc1, spec_args(s), name, value);
    let acc2 = acc1 + spec_args(s);
    lemma_option_before(acc2, kv_args_start(s), name, value);
    let acc3 = acc2 + kv_args_start(s);
    lemma_option_before(acc3, gpu_args(s), name, value);
    let acc4 = acc3 + gpu_args(s);
    lemma_option_before(acc4, thread_args(s), name, value);
    let acc5 = acc4 + thread_args(s);
    lemma_option_before(acc5, output_args(s), name, value);
    let acc6 = acc5 + output_args(s);
    lemma_option_before(acc6, tail_args_start(s, mcp), name, value);
    let acc7 = acc6 + tail_args_start(s, mcp);
    assert(acc7 == start_arg_list(s, model, mcp));
}

/// The server always gets the model path given, the host and port, the context size in tokens
/// (the setting times 1024) and the number of parallel slots.
pub proof fn base_options_passed(s: LaunchSettings, model: Seq<char>, mcp: Option<Seq<char>>)
    ensures
        has_option(start_arg_list(s, model, mcp), "--model"@, model),
        has_option(start_arg_list(s, model, mcp), "--host"@, s.host@),
        has_option(start_arg_list(s, model, mcp), "--port"@, dec(s.port as nat)),
        has_option(start_arg_list(s, model, mcp), "--ctx-size"@, dec((s.context * 1024) as nat)),
        has_option(start_arg_list(s, model, mcp), "--parallel"@, dec(s.parallel_slots as nat)),
{
    let p0 = pair("--model"@, model);
    let p1 = pair("--host"@, s.host@);
    let p2 = pair("--port"@, dec(s.port as nat));
    let p3 = pair("--ctx-size"@, dec((s.context * 1024) as nat));
    let p4 = pair("--parallel"@, dec(s.parallel_slots as nat));
    assert(base_args(s, model) == p0 + p1 + p2 + p3 + p4);
    assert(has_option(start_arg_list(s, model, mcp), "--model"@, model)) by {
        lemma_option_here("--model"@, model);
        lemma_option_before(p0, p1, "--model"@, model);
        lemma_option_before(p0 + p1, p2, "--model"@, model);
        lemma_option_before(p0 + p1 + p2, p3, "--model"@, model);
        lemma_option_before(p0 + p1 + p2 + p3, p4, "--model"@, model);
        lemma_base_in_start(s, model, mcp, "--model"@, model);
    }
    assert(has_option(start_arg_list(s, model, mcp), "--host"@, s.host@)) by {
        lemma_option_here("--host"@, s.host@);
        lemma_option_after(p0, p1, "--host"@, s.host@);
        lemma_option_before(p0 + p1, p2, "--host"@, s.host@);
        lemma_option_before(p0 + p1 + p2, p3, "--host"@, s.host@);
        lemma_option_before(p0 + p1 + p2 + p3, p4, "--host"@, s.host@);
        lemma_base_in_start(s, model, mcp, "--host"@, s.host@);
    }
    assert(has_option(start_arg_list(s, model, mcp), "--port"@, dec(s.port as nat))) by {
        lemma_option_here("--port"@, dec(s.port as nat));
        lemma_option_after(p0 + p1, p2, "--port"@, dec(s.port as nat));
        lemma_option_before(p0 + p1 + p2, p3, "--port"@, dec(s.port as nat));
        lemma_option_before(p0 + p1 + p2 + p3, p4, "--port"@, dec(s.port as nat));
        lemma_base_in_start(s, model, mcp, "--port"@, dec(s.port as nat));
    }
    assert(has_option(start_arg_list(s, model, mcp), "--ctx-size"@, dec((s.context * 1024) as nat))) by {
        lemma_option_here("--ctx-size"@, dec((s.context * 1024) as nat));
        lemma_option_after(p0 + p1 + p2, p3, "--ctx-size"@, dec((s.context * 1024) as nat));
        lemma_option_before(p0 + p1 + p2 + p3, p4, "--ctx-size"@, dec((s.context * 1024) as nat));
        lemma_base_in_start(s, model, mcp, "--ctx-size"@, dec((s.context * 1024) as nat));
    }
    assert(has_option(start_arg_list(s, model, mcp), "--parallel"@, dec(s.parallel_slots as nat))) by {
        lemma_option_here("--parallel"@, dec(s.parallel_slots as nat));
        lemma_option_after(p0 + p1 + p2 + p3, p4, "--parallel"@, dec(s.parallel_slots as nat));
        lemma_base_in_start(s, model, mcp, "--parallel"@, dec(s.parallel_slots as nat));
    }
}

/// A start always passes the batch size in tokens (the setting times 1024), the micro-batch
/// size and the session timeout.
pub proof fn batch_options_passed(s: LaunchSettings, model: Seq<char>, mcp: Option<Seq<char>>)
    ensures
        has_option(start_arg_list(s, model, mcp), "--batch-size"@, dec((s.batch_size * 1024) as nat)),
        has_option(start_arg_list(s, model, mcp), "--ubatch-size"@, dec(s.ubatch_tokens as nat)),
        has_option(start_arg_list(s, model, mcp), "--timeout"@, dec(s.session_timeout as nat)),
{
    let p0 = pair("--batch-size"@, dec((s.batch_size * 1024) as nat));
    let p1 = pair("--ubatch-size"@, dec(s.ubatch_tokens as nat));
    let p2 = pair("--timeout"@, dec(s.session_timeout as nat));
    assert(batch_args_start(s) == p0 + p1 + p2);
    assert(has_option(start_arg_list(s, model, mcp), "--batch-size"@, dec((s.batch_size * 1024) as nat))) by {
        lemma_option_here("--batch-size"@, dec((s.batch_size * 1024) as nat));
        lemma_option_before(p0, p1, "--batch-size"@, dec((s.batch_size * 1024) as nat));
        lemma_option_before(p0 + p1, p2, "--batch-size"@, dec((s.batch_size * 1024) as nat));
        lemma_batch_in_start(s, model, mcp, "--batch-size"@, dec((s.batch_size * 1024) as nat));
    }
    assert(has_option(start_arg_list(s, model, mcp), "--ubatch-size"@, dec(s.ubatch_tokens as nat))) by {
        lemma_option_here("--ubatch-size"@, dec(s.ubatch_tokens as nat));
        lemma_option_after(p0, p1, "--ubatch-size"@, dec(s.ubatch_tokens as nat));
        lemma_option_before(p0 + p1, p2, "--ubatch-size"@, dec(s.ubatch_tokens as nat));
        lemma_batch_in_start(s, model, mcp, "--ubatch-size"@, dec(s.ubatch_tokens as nat));
    }
    assert(has_option(start_arg_list(s, model, mcp), "--timeout"@, dec(s.session_timeout as nat))) by {
        lemma_option_here("--timeout"@, dec(s.session_timeout as nat));
        lemma_option_after(p0 + p1, p2, "--timeout"@, dec(s.session_timeout as nat));
        lemma_batch_in_start(s, model, mcp, "--timeout"@, dec(s.session_timeout as nat));
    }
}

/// Threads, batch threads, the generation length and the seed reach the server with their own
/// values when set (0 or more), as does a positive keep count and a named device.
pub proof fn thread_options_passed(s: LaunchSettings, model: Seq<char>, mcp: Option<Seq<char>>)
    ensures
        s.threads >= 0 ==> has_option(start_arg_list(s, model, mcp), "--threads"@, dec_int(s.threads as int)),
        s.threads_batch >= 0 ==> has_option(start_arg_list(s, model, mcp), "--threads-batch"@, dec_int(s.threads_batch as int)),
        s.n_predict >= 0 ==> has_option(start_arg_list(s, model, mcp), "--n-predict"@, dec_int(s.n_predict as int)),
        s.keep > 0 ==> has_option(start_arg_list(s, model, mcp), "--keep"@, dec_int(s.keep as int)),
        s.seed >= 0 ==> has_option(start_arg_list(s, model, mcp), "--seed"@, dec_int(s.seed as int)),
        s.device@.len() > 0 ==> has_option(start_arg_list(s, model, mcp), "--device"@, s.device@),
{
    let p0 = opt(s.threads >= 0, "--threads"@, dec_int(s.threads as int));
    let p1 = opt(s.threads_batch >= 0, "--threads-batch"@, dec_int(s.threads_batch as int));
    let p2 = opt(s.n_predict >= 0, "--n-predict"@, dec_int(s.n_predict as int));
    let p3 = opt(s.keep > 0, "--keep"@, dec_int(s.keep as int));
    let p4 = opt(s.seed >= 0, "--seed"@, dec_int(s.seed as int));
    let p5 = opt(s.main_gpu >= 0, "--main-gpu"@, dec_int(s.main_gpu as int));
    let p6 = opt(s.device@.len() > 0, "--device"@, s.device@);
    assert(thread_args(s) == p0 + p1 + p2 + p3 + p4 + p5 + p6);
    if s.threads >= 0 {
        assert(has_option(start_arg_list(s, model, mcp), "--threads"@, dec_int(s.threads as int))) by {
            lemma_option_here("--threads"@, dec_int(s.threads as int));
            lemma_option_before(p0, p1, "--threads"@, dec_int(s.threads as int));
            lemma_option_before(p0 + p1, p2, "--threads"@, dec_int(s.threads as int));
            lemma_option_before(p0 + p1 + p2, p3, "--threads"@, dec_int(s.threads as int));
            lemma_option_before(p0 + p1 + p2 + p3, p4, "--threads"@, dec_int(s.threads as int));
            lemma_option_before(p0 + p1 + p2 + p3 + p4, p5, "--threads"@, dec_int(s.threads as int));
            lemma_option_before(p0 + p1 + p2 + p3 + p4 + p5, p6, "--threads"@, dec_int(s.threads as int));
            lemma_threads_in_start(s, model, mcp, "--threads"@, dec_int(s.threads as int));
        }
    }
    if s.threads_batch >= 0 {
        assert(has_option(start_arg_list(s, model, mcp), "--threads-batch"@, dec_int(s.threads_batch as int))) by {
            lemma_option_here("--threads-batch"@, dec_int(s.threads_batch as int));
            lemma_option_after(p0, p1, "--threads-batch"@, dec_int(s.threads_batch as int));
            lemma_option_before(p0 + p1, p2, "--threads-batch"@, dec_int(s.threads_batch as int));
            lemma_option_before(p0 + p1 + p2, p3, "--threads-batch"@, dec_int(s.threads_batch as int));
            lemma_option_before(p0 + p1 + p2 + p3, p4, "--threads-batch"@, dec_int(s.threads_batch as int));
            lemma_option_before(p0 + p1 + p2 + p3 + p4, p5, "--threads-batch"@, dec_int(s.threads_batch as int));
            lemma_option_before(p0 + p1 + p2 + p3 + p4 + p5, p6, "--threads-batch"@, dec_int(s.threads_batch as int));
            lemma_threads_in_start(s, model, mcp, "--threads-batch"@, dec_int(s.threads_batch as int));
        }
    }
    if s.n_predict >= 0 {
        assert(has_option(start_arg_list(s, model, mcp), "--n-predict"@, dec_int(s.n_predict as int))) by {
            lemma_option_here("--n-predict"@, dec_int(s.n_predict as int));
            lemma_option_after(p0 + p1, p2, "--n-predict"@, dec_int(s.n_predict as int));
            lemma_option_before(p0 + p1 + p2, p3, "--n-predict"@, dec_int(s.n_predict as int));
            lemma_option_before(p0 + p1 + p2 + p3, p4, "--n-predict"@, dec_int(s.n_predict as int));
            lemma_option_before(p0 + p1 + p2 + p3 + p4, p5, "--n-predict"@, dec_int(s.n_predict as int));
            lemma_option_before(p0 + p1 + p2 + p3 + p4 + p5, p6, "--n-predict"@, dec_int(s.n_predict as int));
            lemma_threads_in_start(s, model, mcp, "--n-predict"@, dec_int(s.n_predict as int));
        }
    }
    if s.keep > 0 {
        assert(has_option(start_arg_list(s, model, mcp), "--keep"@, dec_int(s.keep as int))) by {
            lemma_option_here("--keep"@, dec_int(s.keep as int));
            lemma_option_after(p0 + p1 + p2, p3, "--keep"@, dec_int(s.keep as int));
            lemma_option_before(p0 + p1 + p2 + p3, p4, "--keep"@, dec_int(s.keep as int));
            lemma_option_before(p0 + p1 + p2 + p3 + p4, p5, "--keep"@, dec_int(s.keep as int));
            lemma_option_before(p0 + p1 + p2 + p3 + p4 + p5, p6, "--keep"@, dec_int(s.keep as int));
            lemma_threads_in_start(s, model, mcp, "--keep"@, dec_int(s.keep as int));
        }
    }
    if s.seed >= 0 {
        assert(has_option(start_arg_list(s, model, mcp), "--seed"@, dec_int(s.seed as int))) by {
            lemma_option_here("--seed"@, dec_int(s.seed as int));
            lemma_option_after(p0 + p1 + p2 + p3, p4, "--seed"@, dec_int(s.seed as int));
            lemma_option_before(p0 + p1 + p2 + p3 + p4, p5, "--seed"@, dec_int(s.seed as int));
            lemma_option_before(p0 + p1 + p2 + p3 + p4 + p5, p6, "--seed"@, dec_int(s.seed as int));
            lemma_threads_in_start(s, model, mcp, "--seed"@, dec_int(s.seed as int));
        }
    }
    if s.device@.len() > 0 {
        assert(has_option(start_arg_list(s, model, mcp), "--device"@, s.device@)) by {
            lemma_option_here("--device"@, s.device@);
            lemma_option_after(p0 + p1 + p2 + p3 + p4 + p5, p6, "--device"@, s.device@);
            lemma_threads_in_start(s, model, mcp, "--device"@, s.device@);
        }
    }
}

/// Min-p, top-n-sigma and typical-p, when switched on with a value, and a sampler sequence
/// reach the server with their own values.
pub proof fn sampler_options_passed(s: LaunchSettings, model: Seq<char>, mcp: Option<Seq<char>>)
    ensures
        s.enable_min_p && s.min_p.set ==> has_option(start_arg_list(s, model, mcp), "--min-p"@, s.min_p.text@),
        s.enable_top_n_sigma && s.top_n_sigma.set ==> has_option(start_arg_list(s, model, mcp), "--top-n-sigma"@, s.top_n_sigma.text@),
        s.enable_typical_p && s.typical_p.set ==> has_option(start_arg_list(s, model, mcp), "--typical-p"@, s.typical_p.text@),
        s.sampler_seq@.len() > 0 ==> has_option(start_arg_list(s, model, mcp), "--sampler-seq"@, s.sampler_seq@),
{
    let p0 = opt(s.enable_min_p && s.min_p.set, "--min-p"@, s.min_p.text@);
    let p1 = opt(s.enable_top_n_sigma && s.top_n_sigma.set, "--top-n-sigma"@, s.top_n_sigma.text@);
    let p2 = xtc_args(s);
    let p3 = opt(s.enable_typical_p && s.typical_p.set, "--typical-p"@, s.typical_p.text@);
    let p4 = mirostat_args(s);
    let p5 = dynatemp_args(s);
    let p6 = opt(s.sampler_seq@.len() > 0, "--sampler-seq"@, s.sampler_seq@);
    assert(sampler_args(s) == p0 + p1 + p2 + p3 + p4 + p5 + p6);
    if s.enable_min_p && s.min_p.set {
        assert(has_option(start_arg_list(s, model, mcp), "--min-p"@, s.min_p.text@)) by {
            lemma_option_here("--min-p"@, s.min_p.text@);
            lemma_option_before(p0, p1, "--min-p"@, s.min_p.text@);
            lemma_option_before(p0 + p1, p2, "--min-p"@, s.min_p.text@);
            lemma_option_before(p0 + p1 + p2, p3, "--min-p"@, s.min_p.text@);
            lemma_option_before(p0 + p1 + p2 + p3, p4, "--min-p"@, s.min_p.text@);
            lemma_option_before(p0 + p1 + p2 + p3 + p4, p5, "--min-p"@, s.min_p.text@);
            lemma_option_before(p0 + p1 + p2 + p3 + p4 + p5, p6, "--min-p"@, s.min_p.text@);
            lemma_sampler_in_start(s, model, mcp, "--min-p"@, s.min_p.text@);
        }
    }
    if s.enable_top_n_sigma && s.top_n_sigma.set {
        assert(has_option(start_arg_list(s, model, mcp), "--top-n-sigma"@, s.top_n_sigma.text@)) by {
            lemma_option_here("--top-n-sigma"@, s.top_n_sigma.text@);
            lemma_option_after(p0, p1, "--top-n-sigma"@, s.top_n_sigma.text@);
            lemma_option_before(p0 + p1, p2, "--top-n-sigma"@, s.top_n_sigma.text@);
            lemma_option_before(p0 + p1 + p2, p3, "--top-n-sigma"@, s.top_n_sigma.text@);
            lemma_option_before(p0 + p1 + p2 + p3, p4, "--top-n-sigma"@, s.top_n_sigma.text@);
            lemma_option_before(p0 + p1 + p2 + p3 + p4, p5, "--top-n-sigma"@, s.top_n_sigma.text@);
            lemma_option_before(p0 + p1 + p2 + p3 + p4 + p5, p6, "--top-n-sigma"@, s.top_n_sigma.text@);
            lemma_sampler_in_start(s, model, mcp, "--top-n-sigma"@, s.top_n_sigma.text@);
        }
    }
    if s.enable_typical_p && s.typical_p.set {
        assert(has_option(start_arg_list(s, model, mcp), "--typical-p"@, s.typical_p.text@)) by {
            lemma_option_here("--typical-p"@, s.typical_p.text@);
            lemma_option_after(p0 + p1 + p2, p3, "--typical-p"@, s.typical_p.text@);
            lemma_option_before(p0 + p1 + p2 + p3, p4, "--typical-p"@, s.typical_p.text@);
            lemma_option_before(p0 + p1 + p2 + p3 + p4, p5, "--typical-p"@, s.typical_p.text@);
            lemma_option_before(p0 + p1 + p2 + p3 + p4 + p5, p6, "--typical-p"@, s.typical_p.text@);
            lemma_sampler_in_start(s, model, mcp, "--typical-p"@, s.typical_p.text@);
        }
    }
    if s.sampler_seq@.len() > 0 {
        assert(has_option(start_arg_list(s, model, mcp), "--sampler-seq"@, s.sampler_seq@)) by {
            lemma_option_here("--sampler-seq"@, s.sampler_seq@);
            lemma_option_after(p0 + p1 + p2 + p3 + p4 + p5, p6, "--sampler-seq"@, s.sampler_seq@);
            lemma_sampler_in_start(s, model, mcp, "--sampler-seq"@, s.sampler_seq@);
        }
    }
}

proof fn lemma_rpc_in_start(
    s: LaunchSettings,
    model: Seq<char>,
    mcp: Option<Seq<char>>,
    name: Seq<char>,
    value: Seq<char>,
)
    requires
        has_option(rpc_args(s), name, value),
    ensures
        has_option(start_arg_list(s, model, mcp), name, value),
{
    let acc0 = rpc_args(s);
    lemma_option_before(acc0, base_args(s, model), name, value);
    let acc1 = acc0 + base_args(s, model);
    lemma_option_before(acc1, batch_args_start(s), name, value);
    let acc2 = acc1 + batch_args_start(s);
    lemma_option_before(acc2, sampling_args(s), name, value);
    let acc3 = acc2 + sampling_args(s);
    lemma_option_before(acc3, reasoning_args(s), name, value);
    let acc4 = acc3 + reasoning_args(s);
    lemma_option_before(acc4, sampler_args(s), name, value);
    let acc5 = acc4 + sampler_args(s);
    lemma_option_before(acc5, media_args(s), name, value);
    let acc6 = acc5 + media_args(s);
    lemma_option_before(acc6, spec_args(s), name, value);
    let acc7 = acc6 + spec_args(s);
    lemma_option_before(acc7, kv_args_start(s), name, value);
    let acc8 = acc7 + kv_args_start(s);
    lemma_option_before(acc8, gpu_args(s), name, value);
    let acc9 = acc8 + gpu_args(s);
    lemma_option_before(acc9, thread_args(s), name, value);
    let acc10 = acc9 + thread_args(s);
    lemma_option_before(acc10, output_args(s), name, value);
    let acc11 = acc10 + output_args(s);
    lemma_option_before(acc11, tail_args_start(s, mcp), name, value);
    let acc12 = acc11 + tail_args_start(s, mcp);
    assert(acc12 == start_arg_list(s, model, mcp));
}

proof fn lemma_reasoning_in_start(
    s: LaunchSettings,
    model: Seq<char>,
    mcp: Option<Seq<char>>,
    name: Seq<char>,
    value: Seq<char>,
)
    requires
        has_option(reasoning_args(s), name, value),
    ensures
        has_option(start_arg_list(s, model, mcp), name, value),
{
    let pre = rpc_args(s) + base_args(s, model) + batch_args_start(s) + sampling_args(s);
    lemma_option_after(pre, reasoning_args(s), name, value);
    let acc0 = pre + reasoning_args(s);
    lemma_option_before(acc0, sampler_args(s), name, value);
    let acc1 = acc0 + sampler_args(s);
    lemma_option_before(acc1, media_args(s), name, value);
    let acc2 = acc1 + media_args(s);
    lemma_option_before(acc2, spec_args(s), name, value);
    let acc3 = acc2 + spec_args(s);
    lemma_option_before(acc3, kv_args_start(s), name, value);
    let acc4 = acc3 + kv_args_start(s);
    lemma_option_before(acc4, gpu_args(s), name, value);
    let acc5 = acc4 + gpu_args(s);
    lemma_option_before(acc5, thread_args(s), name, value);
    let acc6 = acc5 + thread_args(s);
    lemma_option_before(acc6, output_args(s), name, value);
    let acc7 = acc6 + output_args(s);
    lemma_option_before(acc7, tail_args_start(s, mcp), name, value);
    let acc8 = acc7 + tail_args_start(s, mcp);
    assert(acc8 == start_arg_list(s, model, mcp));
}

proof fn lemma_media_in_start(
    s: LaunchSettings,
    model: Seq<char>,
    mcp: Option<Seq<char>>,
    name: Seq<char>,
    value: Seq<char>,
)
    requires
        has_option(media_args(s), name, value),
    ensures
        has_option(start_arg_list(s, model, mcp), name, value),
{
    let pre = rpc_args(s) + base_args(s, model) + batch_args_start(s) + sampling_args(s) + reasoning_args(s) + sampler_args(s);
    lemma_option_after(pre, media_args(s), name, value);
    let acc0 = pre + media_args(s);
    lemma_option_before(acc0, spec_args(s), name, value);
    let acc1 = acc0 + spec_args(s);
    lemma_option_before(acc1, kv_args_start(s), name, value);
    let acc2 = acc1 + kv_args_start(s);
    lemma_option_before(acc2, gpu_args(s), name, value);
    let acc3 = acc2 + gpu_args(s);
    lemma_option_before(acc3, thread_args(s), name, value);
    let acc4 = acc3 + thread_args(s);
    lemma_option_before(acc4, output_args(s), name, value);
    let acc5 = acc4 + output_args(s);
    lemma_option_before(acc5, tail_args_start(s, mcp), name, value);
    let acc6 = acc5 + tail_args_start(s, mcp);
    assert(acc6 == start_arg_list(s, model, mcp));
}

proof fn lemma_spec_in_start(
    s: LaunchSettings,
    model: Seq<char>,
    mcp: Option<Seq<char>>,
    name: Seq<char>,
    value: Seq<char>,
)
    requires
        has_option(spec_args(s), name, value),
    ensures
        has_option(start_arg_list(s, model, mcp), name, value),
{
    let pre = rpc_args(s) + base_args(s, model) + batch_args_start(s) + sampling_args(s) + reasoning_args(s) + sampler_args(s) + media_args(s);
    lemma_option_after(pre, spec_args(s), name, value);
    let acc0 = pre + spec_args(s);
    lemma_option_before(acc0, kv_args_start(s), name, value);
    let acc1 = acc0 + kv_args_start(s);
    lemma_option_before(acc1, gpu_args(s), name, value);
    let acc2 = acc1 + gpu_args(s);
    lemma_option_before(acc2, thread_args(s), name, value);
    let acc3 = acc2 + thread_args(s);
    lemma_option_before(acc3, output_args(s), name, value);
    let acc4 = acc3 + output_args(s);
    lemma_option_before(acc4, tail_args_start(s, mcp), name, value);
    let acc5 = acc4 + tail_args_start(s, mcp);
    assert(acc5 == start_arg_list(s, model, mcp));
}

proof fn lemma_kv_in_start(
    s: LaunchSettings,
    model: Seq<char>,
    mcp: Option<Seq<char>>,
    name: Seq<char>,
    value: Seq<char>,
)
    requires
        has_option(kv_args_start(s), name, value),
    ensures
        has_option(start_arg_list(s, model, mcp), name, value),
{
    let pre = rpc_args(s) + base_args(s, model) + batch_args_start(s) + sampling_args(s) + reasoning_args(s) + sampler_args(s) + media_args(s) + spec_args(s);
    lemma_option_after(pre, kv_args_start(s), name, value);
    let acc0 = pre + kv_args_start(s);
    lemma_option_before(acc0, gpu_args(s), name, value);
    let acc1 = acc0 + gpu_args(s);
    lemma_option_before(acc1, thread_args(s), name, value);
    let acc2 = acc1 + thread_args(s);
    lemma_option_before(acc2, output_args(s), name, value);
    let acc3 = acc2 + output_args(s);
    lemma_option_before(acc3, tail_args_start(s, mcp), name, value);
    let acc4 = acc3 + tail_args_start(s, mcp);
    assert(acc4 == start_arg_list(s, model, mcp));
}

proof fn lemma_gpu_in_start(
    s: LaunchSettings,
    model: Seq<char>,
    mcp: Option<Seq<char>>,
    name: Seq<char>,
    value: Seq<char>,
)
    requires
        has_option(gpu_args(s), name, value),
    ensures
        has_option(start_arg_list(s, model, mcp), name, value),
{
    let pre = rpc_args(s) + base_args(s, model) + batch_args_start(s) + sampling_args(s) + reasoning_args(s) + sampler_args(s) + media_args(s) + spec_args(s) + kv_args_start(s);
    lemma_option_after(pre, gpu_args(s), name, value);
    let acc0 = pre + gpu_args(s);
    lemma_option_before(acc0, thread_args(s), name, value);
    let acc1 = acc0 + thread_args(s);
    lemma_option_before(acc1, output_args(s), name, value);
    let acc2 = acc1 + output_args(s);
    lemma_option_before(acc2, tail_args_start(s, mcp), name, value);
    let acc3 = acc2 + tail_args_start(s, mcp);
    assert(acc3 == start_arg_list(s, model, mcp));
}

proof fn lemma_output_in_start(
    s: LaunchSettings,
    model: Seq<char>,
    mcp: Option<Seq<char>>,
    name: Seq<char>,
    value: Seq<char>,
)
    requires
        has_option(output_args(s), name, value),
    ensures
        has_option(start_arg_list(s, model, mcp), name, value),
{
    let pre = rpc_args(s) + base_args(s, model) + batch_args_start(s) + sampling_args(s) + reasoning_args(s) + sampler_args(s) + media_args(s) + spec_args(s) + kv_args_start(s) + gpu_args(s) + thread_args(s);
    lemma_option_after(pre, output_args(s), name, value);
    let acc0 = pre + output_args(s);
    lemma_option_before(acc0, tail_args_start(s, mcp), name, value);
    let acc1 = acc0 + tail_args_start(s, mcp);
    assert(acc1 == start_arg_list(s, model, mcp));
}

proof fn lemma_tail_in_start(
    s: LaunchSettings,
    model: Seq<char>,
    mcp: Option<Seq<char>>,
    name: Seq<char>,
    value: Seq<char>,
)
    requires
        has_option(tail_args_start(s, mcp), name, value),
    ensures
        has_option(start_arg_list(s, model, mcp), name, value),
{
    let pre = rpc_args(s) + base_args(s, model) + batch_args_start(s) + sampling_args(s) + reasoning_args(s) + sampler_args(s) + media_args(s) + spec_args(s) + kv_args_start(s) + gpu_args(s) + thread_args(s) + output_args(s);
    lemma_option_after(pre, tail_args_start(s, mcp), name, value);
    let acc0 = pre + tail_args_start(s, mcp);
    assert(acc0 == start_arg_list(s, model, mcp));
}

proof fn lemma_api_in_start(
    s: LaunchSettings,
    model: Seq<char>,
    mcp: Option<Seq<char>>,
    name: Seq<char>,
    value: Seq<char>,
)
    requires
        has_option(api_args(s), name, value),
    ensures
        has_option(start_arg_list(s, model, mcp), name, value),
{
    let pre = pair("--log-verbosity"@, dec(s.log_verbosity as nat)) + flag(s.offline_mode, "--offline"@)
        + toggle(s.web_ui_enabled, "--webui"@, "--no-webui"@) + opt(
        mcp is Some,
        "--mcp-servers-config"@,
        or_empty(mcp),
    );
    lemma_option_after(pre, api_args(s), name, value);
    assert(pre + api_args(s) == tail_args_start(s, mcp));
    lemma_tail_in_start(s, model, mcp, name, value);
}

/// In RPC mode the server gets the endpoint list, cleaned (see `clean_endpoints`).
pub proof fn rpc_option_passed(s: LaunchSettings, model: Seq<char>, mcp: Option<Seq<char>>)
    ensures
        s.rpc_mode ==> has_option(start_arg_list(s, model, mcp), "--rpc"@, clean_endpoints(s.rpc_endpoints@)),
{
    let p0 = opt(s.rpc_mode, "--rpc"@, clean_endpoints(s.rpc_endpoints@));
    assert(rpc_args(s) == p0);
    if s.rpc_mode {
        assert(has_option(start_arg_list(s, model, mcp), "--rpc"@, clean_endpoints(s.rpc_endpoints@))) by {
            lemma_option_here("--rpc"@, clean_endpoints(s.rpc_endpoints@));
            lemma_rpc_in_start(s, model, mcp, "--rpc"@, clean_endpoints(s.rpc_endpoints@));
        }
    }
}

/// A reasoning budget other than -1 (no limit), a chat template and a chat template file reach
/// the server with their own values.
pub proof fn reasoning_options_passed(s: LaunchSettings, model: Seq<char>, mcp: Option<Seq<char>>)
    ensures
        s.reasoning_budget != -1 ==> has_option(start_arg_list(s, model, mcp), "--reasoning-budget"@, dec_int(s.reasoning_budget as int)),
        s.chat_template@.len() > 0 ==> has_option(start_arg_list(s, model, mcp), "--chat-template"@, s.chat_template@),
        s.chat_template_file@.len() > 0 ==> has_option(start_arg_list(s, model, mcp), "--chat-template-file"@, s.chat_template_file@),
{
    let p0 = opt(given(s.reasoning@, "auto"@), "--reasoning"@, s.reasoning@);
    let p1 = opt(given(s.reasoning_format@, "auto"@), "--reasoning-format"@, s.reasoning_format@);
    let p2 = opt(given(s.reasoning_effort@, "default"@), "--reasoning-effort"@, s.reasoning_effort@);
    let p3 = opt(s.reasoning_budget != -1, "--reasoning-budget"@, dec_int(s.reasoning_budget as int));
    let p4 = preserve_args(s);
    let p5 = opt(s.chat_template@.len() > 0, "--chat-template"@, s.chat_template@);
    let p6 = opt(s.chat_template_file@.len() > 0, "--chat-template-file"@, s.chat_template_file@);
    let p7 = toggle(s.jinja_enabled, "--jinja"@, "--no-jinja"@);
    assert(reasoning_args(s) == p0 + p1 + p2 + p3 + p4 + p5 + p6 + p7);
    if s.reasoning_budget != -1 {
        assert(has_option(start_arg_list(s, model, mcp), "--reasoning-budget"@, dec_int(s.reasoning_budget as int))) by {
            lemma_option_here("--reasoning-budget"@, dec_int(s.reasoning_budget as int));
            lemma_option_after(p0 + p1 + p2, p3, "--reasoning-budget"@, dec_int(s.reasoning_budget as int));
            lemma_option_before(p0 + p1 + p2 + p3, p4, "--reasoning-budget"@, dec_int(s.reasoning_budget as int));
            lemma_option_before(p0 + p1 + p2 + p3 + p4, p5, "--reasoning-budget"@, dec_int(s.reasoning_budget as int));
            lemma_option_before(p0 + p1 + p2 + p3 + p4 + p5, p6, "--reasoning-budget"@, dec_int(s.reasoning_budget as int));
            lemma_option_before(p0 + p1 + p2 + p3 + p4 + p5 + p6, p7, "--reasoning-budget"@, dec_int(s.reasoning_budget as int));
            lemma_reasoning_in_start(s, model, mcp, "--reasoning-budget"@, dec_int(s.reasoning_budget as int));
        }
    }
    if s.chat_template@.len() > 0 {
        assert(has_option(start_arg_list(s, model, mcp), "--chat-template"@, s.chat_template@)) by {
            lemma_option_here("--chat-template"@, s.chat_template@);
            lemma_option_after(p0 + p1 + p2 + p3 + p4, p5, "--chat-template"@, s.chat_template@);
            lemma_option_before(p0 + p1 + p2 + p3 + p4 + p5, p6, "--chat-template"@, s.chat_template@);
            lemma_option_before(p0 + p1 + p2 + p3 + p4 + p5 + p6, p7, "--chat-template"@, s.chat_template@);
            lemma_reasoning_in_start(s, model, mcp, "--chat-template"@, s.chat_template@);
        }
    }
    if s.chat_template_file@.len() > 0 {
        assert(has_option(start_arg_list(s, model, mcp), "--chat-template-file"@, s.chat_template_file@)) by {
            lemma_option_here("--chat-template-file"@, s.chat_template_file@);
            lemma_option_after(p0 + p1 + p2 + p3 + p4 + p5, p6, "--chat-template-file"@, s.chat_template_file@);
            lemma_option_before(p0 + p1 + p2 + p3 + p4 + p5 + p6, p7, "--chat-template-file"@, s.chat_template_file@);
            lemma_reasoning_in_start(s, model, mcp, "--chat-template-file"@, s.chat_template_file@);
        }
    }
}

/// A draft model reaches the server as `--model-draft` with its path, and a speculative type
/// other than `none` as `--spec-type`.
pub proof fn speculative_options_passed(s: LaunchSettings, model: Seq<char>, mcp: Option<Seq<char>>)
    ensures
        s.dflash_path@.len() > 0 ==> has_option(start_arg_list(s, model, mcp), "--model-draft"@, s.dflash_path@),
        s.spec_type@ != "none"@ ==> has_option(start_arg_list(s, model, mcp), "--spec-type"@, s.spec_type@),
{
    let p0 = opt(s.dflash_path@.len() > 0, "--model-draft"@, s.dflash_path@);
    let p1 = opt(s.spec_type@ != "none"@, "--spec-type"@, s.spec_type@);
    let p2 = draft_args_for(s);
    let p3 = ngram_size_args(s);
    assert(spec_args(s) == p0 + p1 + p2 + p3);
    if s.dflash_path@.len() > 0 {
        assert(has_option(start_arg_list(s, model, mcp), "--model-draft"@, s.dflash_path@)) by {
            lemma_option_here("--model-draft"@, s.dflash_path@);
            lemma_option_before(p0, p1, "--model-draft"@, s.dflash_path@);
            lemma_option_before(p0 + p1, p2, "--model-draft"@, s.dflash_path@);
            lemma_option_before(p0 + p1 + p2, p3, "--model-draft"@, s.dflash_path@);
            lemma_spec_in_start(s, model, mcp, "--model-draft"@, s.dflash_path@);
        }
    }
    if s.spec_type@ != "none"@ {
        assert(has_option(start_arg_list(s, model, mcp), "--spec-type"@, s.spec_type@)) by {
            lemma_option_here("--spec-type"@, s.spec_type@);
            lemma_option_after(p0, p1, "--spec-type"@, s.spec_type@);
            lemma_option_before(p0 + p1, p2, "--spec-type"@, s.spec_type@);
            lemma_option_before(p0 + p1 + p2, p3, "--spec-type"@, s.spec_type@);
            lemma_spec_in_start(s, model, mcp, "--spec-type"@, s.spec_type@);
        }
    }
}

/// The K and V cache types reach the server each under its own option, and a load mode other
/// than `auto` as `--load-mode`.
pub proof fn cache_options_passed(s: LaunchSettings, model: Seq<char>, mcp: Option<Seq<char>>)
    ensures
        s.cache_type_k@.len() > 0 ==> has_option(start_arg_list(s, model, mcp), "--cache-type-k"@, s.cache_type_k@),
        s.cache_type_v@.len() > 0 ==> has_option(start_arg_list(s, model, mcp), "--cache-type-v"@, s.cache_type_v@),
        given(s.load_mode@, "auto"@) ==> has_option(start_arg_list(s, model, mcp), "--load-mode"@, s.load_mode@),
{
    let p0 = ngram_mod_args(s);
    let p1 = toggle(s.kv_offload, "--kv-offload"@, "--no-kv-offload"@);
    let p2 = opt(s.cache_type_k@.len() > 0, "--cache-type-k"@, s.cache_type_k@);
    let p3 = opt(s.cache_type_v@.len() > 0, "--cache-type-v"@, s.cache_type_v@);
    let p4 = opt(given(s.load_mode@, "auto"@), "--load-mode"@, s.load_mode@);
    let p5 = opt(given(s.tensor_read_lazy@, "auto"@), "--lazy-mode"@, s.tensor_read_lazy@);
    let p6 = flag(s.kv_unified, "--kv-unified"@);
    let p7 = flag(s.swa_full, "--swa-full"@);
    assert(kv_args_start(s) == p0 + p1 + p2 + p3 + p4 + p5 + p6 + p7);
    if s.cache_type_k@.len() > 0 {
        assert(has_option(start_arg_list(s, model, mcp), "--cache-type-k"@, s.cache_type_k@)) by {
            lemma_option_here("--cache-type-k"@, s.cache_type_k@);
            lemma_option_after(p0 + p1, p2, "--cache-type-k"@, s.cache_type_k@);
            lemma_option_before(p0 + p1 + p2, p3, "--cache-type-k"@, s.cache_type_k@);
            lemma_option_before(p0 + p1 + p2 + p3, p4, "--cache-type-k"@, s.cache_type_k@);
            lemma_option_before(p0 + p1 + p2 + p3 + p4, p5, "--cache-type-k"@, s.cache_type_k@);
            lemma_option_before(p0 + p1 + p2 + p3 + p4 + p5, p6, "--cache-type-k"@, s.cache_type_k@);
            lemma_option_before(p0 + p1 + p2 + p3 + p4 + p5 + p6, p7, "--cache-type-k"@, s.cache_type_k@);
            lemma_kv_in_start(s, model, mcp, "--cache-type-k"@, s.cache_type_k@);
        }
    }
    if s.cache_type_v@.len() > 0 {
        assert(has_option(start_arg_list(s, model, mcp), "--cache-type-v"@, s.cache_type_v@)) by {
            lemma_option_here("--cache-type-v"@, s.cache_type_v@);
            lemma_option_after(p0 + p1 + p2, p3, "--cache-type-v"@, s.cache_type_v@);
            lemma_option_before(p0 + p1 + p2 + p3, p4, "--cache-type-v"@, s.cache_type_v@);
            lemma_option_before(p0 + p1 + p2 + p3 + p4, p5, "--cache-type-v"@, s.cache_type_v@);
            lemma_option_before(p0 + p1 + p2 + p3 + p4 + p5, p6, "--cache-type-v"@, s.cache_type_v@);
            lemma_option_before(p0 + p1 + p2 + p3 + p4 + p5 + p6, p7, "--cache-type-v"@, s.cache_type_v@);
            lemma_kv_in_start(s, model, mcp, "--cache-type-v"@, s.cache_type_v@);
        }
    }
    if given(s.load_mode@, "auto"@) {
        assert(has_option(start_arg_list(s, model, mcp), "--load-mode"@, s.load_mode@)) by {
            lemma_option_here("--load-mode"@, s.load_mode@);
            lemma_option_after(p0 + p1 + p2 + p3, p4, "--load-mode"@, s.load_mode@);
            lemma_option_before(p0 + p1 + p2 + p3 + p4, p5, "--load-mode"@, s.load_mode@);
            lemma_option_before(p0 + p1 + p2 + p3 + p4 + p5, p6, "--load-mode"@, s.load_mode@);
            lemma_option_before(p0 + p1 + p2 + p3 + p4 + p5 + p6, p7, "--load-mode"@, s.load_mode@);
            lemma_kv_in_start(s, model, mcp, "--load-mode"@, s.load_mode@);
        }
    }
}

/// Checkpoint settings other than the defaults, a split mode other than `layer`, a tensor
/// split, a count of MoE layers kept on the CPU (without `--cpu-moe`) and tensor overrides
/// reach the server with their own values.
pub proof fn gpu_options_passed(s: LaunchSettings, model: Seq<char>, mcp: Option<Seq<char>>)
    ensures
        s.ctx_checkpoints != 32 ==> has_option(start_arg_list(s, model, mcp), "--ctx-checkpoints"@, dec(s.ctx_checkpoints as nat)),
        s.checkpoint_min_step != 512 ==> has_option(start_arg_list(s, model, mcp), "--checkpoint-min-step"@, dec(s.checkpoint_min_step as nat)),
        given(s.split_mode@, "layer"@) ==> has_option(start_arg_list(s, model, mcp), "--split-mode"@, s.split_mode@),
        s.tensor_split@.len() > 0 ==> has_option(start_arg_list(s, model, mcp), "--tensor-split"@, s.tensor_split@),
        !s.cpu_moe && s.n_cpu_moe > 0 ==> has_option(start_arg_list(s, model, mcp), "--n-cpu-moe"@, dec(s.n_cpu_moe as nat)),
        s.override_tensor@.len() > 0 ==> has_option(start_arg_list(s, model, mcp), "--override-tensor"@, s.override_tensor@),
{
    let p0 = opt(s.ctx_checkpoints != 32, "--ctx-checkpoints"@, dec(s.ctx_checkpoints as nat));
    let p1 = opt(s.checkpoint_min_step != 512, "--checkpoint-min-step"@, dec(s.checkpoint_min_step as nat));
    let p2 = opt(given(s.split_mode@, "layer"@), "--split-mode"@, s.split_mode@);
    let p3 = opt(s.tensor_split@.len() > 0, "--tensor-split"@, s.tensor_split@);
    let p4 = flag(s.cpu_moe, "--cpu-moe"@);
    let p5 = opt(!s.cpu_moe && s.n_cpu_moe > 0, "--n-cpu-moe"@, dec(s.n_cpu_moe as nat));
    let p6 = opt(s.override_tensor@.len() > 0, "--override-tensor"@, s.override_tensor@);
    assert(gpu_args(s) == p0 + p1 + p2 + p3 + p4 + p5 + p6);
    if s.ctx_checkpoints != 32 {
        assert(has_option(start_arg_list(s, model, mcp), "--ctx-checkpoints"@, dec(s.ctx_checkpoints as nat))) by {
            lemma_option_here("--ctx-checkpoints"@, dec(s.ctx_checkpoints as nat));
            lemma_option_before(p0, p1, "--ctx-checkpoints"@, dec(s.ctx_checkpoints as nat));
            lemma_option_before(p0 + p1, p2, "--ctx-checkpoints"@, dec(s.ctx_checkpoints as nat));
            lemma_option_before(p0 + p1 + p2, p3, "--ctx-checkpoints"@, dec(s.ctx_checkpoints as nat));
            lemma_option_before(p0 + p1 + p2 + p3, p4, "--ctx-checkpoints"@, dec(s.ctx_checkpoints as nat));
            lemma_option_before(p0 + p1 + p2 + p3 + p4, p5, "--ctx-checkpoints"@, dec(s.ctx_checkpoints as nat));
            lemma_option_before(p0 + p1 + p2 + p3 + p4 + p5, p6, "--ctx-checkpoints"@, dec(s.ctx_checkpoints as nat));
            lemma_gpu_in_start(s, model, mcp, "--ctx-checkpoints"@, dec(s.ctx_checkpoints as nat));
        }
    }
    if s.checkpoint_min_step != 512 {
        assert(has_option(start_arg_list(s, model, mcp), "--checkpoint-min-step"@, dec(s.checkpoint_min_step as nat))) by {
            lemma_option_here("--checkpoint-min-step"@, dec(s.checkpoint_min_step as nat));
            lemma_option_after(p0, p1, "--checkpoint-min-step"@, dec(s.checkpoint_min_step as nat));
            lemma_option_before(p0 + p1, p2, "--checkpoint-min-step"@, dec(s.checkpoint_min_step as nat));
            lemma_option_before(p0 + p1 + p2, p3, "--checkpoint-min-step"@, dec(s.checkpoint_min_step as nat));
            lemma_option_before(p0 + p1 + p2 + p3, p4, "--checkpoint-min-step"@, dec(s.checkpoint_min_step as nat));
            lemma_option_before(p0 + p1 + p2 + p3 + p4, p5, "--checkpoint-min-step"@, dec(s.checkpoint_min_step as nat));
            lemma_option_before(p0 + p1 + p2 + p3 + p4 + p5, p6, "--checkpoint-min-step"@, dec(s.checkpoint_min_step as nat));
            lemma_gpu_in_start(s, model, mcp, "--checkpoint-min-step"@, dec(s.checkpoint_min_step as nat));
        }
    }
    if given(s.split_mode@, "layer"@) {
        assert(has_option(start_arg_list(s, model, mcp), "--split-mode"@, s.split_mode@)) by {
            lemma_option_here("--split-mode"@, s.split_mode@);
            lemma_option_after(p0 + p1, p2, "--split-mode"@, s.split_mode@);
            lemma_option_before(p0 + p1 + p2, p3, "--split-mode"@, s.split_mode@);
            lemma_option_before(p0 + p1 + p2 + p3, p4, "--split-mode"@, s.split_mode@);
            lemma_option_before(p0 + p1 + p2 + p3 + p4, p5, "--split-mode"@, s.split_mode@);
            lemma_option_before(p0 + p1 + p2 + p3 + p4 + p5, p6, "--split-mode"@, s.split_mode@);
            lemma_gpu_in_start(s, model, mcp, "--split-mode"@, s.split_mode@);
        }
    }
    if s.tensor_split@.len() > 0 {
        assert(has_option(start_arg_list(s, model, mcp), "--tensor-split"@, s.tensor_split@)) by {
            lemma_option_here("--tensor-split"@, s.tensor_split@);
            lemma_option_after(p0 + p1 + p2, p3, "--tensor-split"@, s.tensor_split@);
            lemma_option_before(p0 + p1 + p2 + p3, p4, "--tensor-split"@, s.tensor_split@);
            lemma_option_before(p0 + p1 + p2 + p3 + p4, p5, "--tensor-split"@, s.tensor_split@);
            lemma_option_before(p0 + p1 + p2 + p3 + p4 + p5, p6, "--tensor-split"@, s.tensor_split@);
            lemma_gpu_in_start(s, model, mcp, "--tensor-split"@, s.tensor_split@);
        }
    }
    if !s.cpu_moe && s.n_cpu_moe > 0 {
        assert(has_option(start_arg_list(s, model, mcp), "--n-cpu-moe"@, dec(s.n_cpu_moe as nat))) by {
            lemma_option_here("--n-cpu-moe"@, dec(s.n_cpu_moe as nat));
            lemma_option_after(p0 + p1 + p2 + p3 + p4, p5, "--n-cpu-moe"@, dec(s.n_cpu_moe as nat));
            lemma_option_before(p0 + p1 + p2 + p3 + p4 + p5, p6, "--n-cpu-moe"@, dec(s.n_cpu_moe as nat));
            lemma_gpu_in_start(s, model, mcp, "--n-cpu-moe"@, dec(s.n_cpu_moe as nat));
        }
    }
    if s.override_tensor@.len() > 0 {
        assert(has_option(start_arg_list(s, model, mcp), "--override-tensor"@, s.override_tensor@)) by {
            lemma_option_here("--override-tensor"@, s.override_tensor@);
            lemma_option_after(p0 + p1 + p2 + p3 + p4 + p5, p6, "--override-tensor"@, s.override_tensor@);
            lemma_gpu_in_start(s, model, mcp, "--override-tensor"@, s.override_tensor@);
        }
    }
}

/// A positive cache reuse, a JSON schema and a grammar reach the server each under its own
/// option with its own value.
pub proof fn output_options_passed(s: LaunchSettings, model: Seq<char>, mcp: Option<Seq<char>>)
    ensures
        s.cache_reuse > 0 ==> has_option(start_arg_list(s, model, mcp), "--cache-reuse"@, dec_int(s.cache_reuse as int)),
        s.json_schema@.len() > 0 ==> has_option(start_arg_list(s, model, mcp), "--json-schema"@, s.json_schema@),
        s.grammar@.len() > 0 ==> has_option(start_arg_list(s, model, mcp), "--grammar"@, s.grammar@),
{
    let p0 = toggle(s.cache_prompt, "--cache-prompt"@, "--no-cache-prompt"@);
    let p1 = opt(s.cache_reuse > 0, "--cache-reuse"@, dec_int(s.cache_reuse as int));
    let p2 = flag(s.context_shift, "--context-shift"@);
    let p3 = opt(s.json_schema@.len() > 0, "--json-schema"@, s.json_schema@);
    let p4 = opt(s.grammar@.len() > 0, "--grammar"@, s.grammar@);
    let p5 = flag(s.verbose, "--verbose"@);
    let p6 = toggle(s.log_timestamps, "--log-timestamps"@, "--no-log-timestamps"@);
    assert(output_args(s) == p0 + p1 + p2 + p3 + p4 + p5 + p6);
    if s.cache_reuse > 0 {
        assert(has_option(start_arg_list(s, model, mcp), "--cache-reuse"@, dec_int(s.cache_reuse as int))) by {
            lemma_option_here("--cache-reuse"@, dec_int(s.cache_reuse as int));
            lemma_option_after(p0, p1, "--cache-reuse"@, dec_int(s.cache_reuse as int));
            lemma_option_before(p0 + p1, p2, "--cache-reuse"@, dec_int(s.cache_reuse as int));
            lemma_option_before(p0 + p1 + p2, p3, "--cache-reuse"@, dec_int(s.cache_reuse as int));
            lemma_option_before(p0 + p1 + p2 + p3, p4, "--cache-reuse"@, dec_int(s.cache_reuse as int));
            lemma_option_before(p0 + p1 + p2 + p3 + p4, p5, "--cache-reuse"@, dec_int(s.cache_reuse as int));
            lemma_option_before(p0 + p1 + p2 + p3 + p4 + p5, p6, "--cache-reuse"@, dec_int(s.cache_reuse as int));
            lemma_output_in_start(s, model, mcp, "--cache-reuse"@, dec_int(s.cache_reuse as int));
        }
    }
    if s.json_schema@.len() > 0 {
        assert(has_option(start_arg_list(s, model, mcp), "--json-schema"@, s.json_schema@)) by {
            lemma_option_here("--json-schema"@, s.json_schema@);
            lemma_option_after(p0 + p1 + p2, p3, "--json-schema"@, s.json_schema@);
            lemma_option_before(p0 + p1 + p2 + p3, p4, "--json-schema"@, s.json_schema@);
            lemma_option_before(p0 + p1 + p2 + p3 + p4, p5, "--json-schema"@, s.json_schema@);
            lemma_option_before(p0 + p1 + p2 + p3 + p4 + p5, p6, "--json-schema"@, s.json_schema@);
            lemma_output_in_start(s, model, mcp, "--json-schema"@, s.json_schema@);
        }
    }
    if s.grammar@.len() > 0 {
        assert(has_option(start_arg_list(s, model, mcp), "--grammar"@, s.grammar@)) by {
            lemma_option_here("--grammar"@, s.grammar@);
            lemma_option_after(p0 + p1 + p2 + p3, p4, "--grammar"@, s.grammar@);
            lemma_option_before(p0 + p1 + p2 + p3 + p4, p5, "--grammar"@, s.grammar@);
            lemma_option_before(p0 + p1 + p2 + p3 + p4 + p5, p6, "--grammar"@, s.grammar@);
            lemma_output_in_start(s, model, mcp, "--grammar"@, s.grammar@);
        }
    }
}

/// A start always passes the log verbosity, and the MCP configuration file when one was written.
pub proof fn tail_options_passed(s: LaunchSettings, model: Seq<char>, mcp: Option<Seq<char>>)
    ensures
        has_option(start_arg_list(s, model, mcp), "--log-verbosity"@, dec(s.log_verbosity as nat)),
        mcp is Some ==> has_option(start_arg_list(s, model, mcp), "--mcp-servers-config"@, or_empty(mcp)),
{
    let p0 = pair("--log-verbosity"@, dec(s.log_verbosity as nat));
    let p1 = flag(s.offline_mode, "--offline"@);
    let p2 = toggle(s.web_ui_enabled, "--webui"@, "--no-webui"@);
    let p3 = opt(mcp is Some, "--mcp-servers-config"@, or_empty(mcp));
    let p4 = api_args(s);
    assert(tail_args_start(s, mcp) == p0 + p1 + p2 + p3 + p4);
    assert(has_option(start_arg_list(s, model, mcp), "--log-verbosity"@, dec(s.log_verbosity as nat))) by {
        lemma_option_here("--log-verbosity"@, dec(s.log_verbosity as nat));
        lemma_option_before(p0, p1, "--log-verbosity"@, dec(s.log_verbosity as nat));
        lemma_option_before(p0 + p1, p2, "--log-verbosity"@, dec(s.log_verbosity as nat));
        lemma_option_before(p0 + p1 + p2, p3, "--log-verbosity"@, dec(s.log_verbosity as nat));
        lemma_option_before(p0 + p1 + p2 + p3, p4, "--log-verbosity"@, dec(s.log_verbosity as nat));
        lemma_tail_in_start(s, model, mcp, "--log-verbosity"@, dec(s.log_verbosity as nat));
    }
    if mcp is Some {
        assert(has_option(start_arg_list(s, model, mcp), "--mcp-servers-config"@, or_empty(mcp))) by {
            lemma_option_here("--mcp-servers-config"@, or_empty(mcp));
            lemma_option_after(p0 + p1 + p2, p3, "--mcp-servers-config"@, or_empty(mcp));
            lemma_option_before(p0 + p1 + p2 + p3, p4, "--mcp-servers-config"@, or_empty(mcp));
            lemma_tail_in_start(s, model, mcp, "--mcp-servers-config"@, or_empty(mcp));
        }
    }
}

/// The API key and prefix, the CORS origins, the TLS certificate and key files and a NUMA mode
/// reach the server each under its own option with its own value.
pub proof fn api_options_passed(s: LaunchSettings, model: Seq<char>, mcp: Option<Seq<char>>)
    ensures
        s.api_key@.len() > 0 ==> has_option(start_arg_list(s, model, mcp), "--api-key"@, s.api_key@),
        s.api_prefix@.len() > 0 ==> has_option(start_arg_list(s, model, mcp), "--api-prefix"@, s.api_prefix@),
        s.cors_origins@.len() > 0 ==> has_option(start_arg_list(s, model, mcp), "--cors-origins"@, s.cors_origins@),
        s.ssl_cert_file@.len() > 0 ==> has_option(start_arg_list(s, model, mcp), "--ssl-cert-file"@, s.ssl_cert_file@),
        s.ssl_key_file@.len() > 0 ==> has_option(start_arg_list(s, model, mcp), "--ssl-key-file"@, s.ssl_key_file@),
        s.numa@.len() > 0 ==> has_option(start_arg_list(s, model, mcp), "--numa"@, s.numa@),
{
    let p0 = opt(s.api_key@.len() > 0, "--api-key"@, s.api_key@);
    let p1 = opt(s.api_prefix@.len() > 0, "--api-prefix"@, s.api_prefix@);
    let p2 = opt(s.cors_origins@.len() > 0, "--cors-origins"@, s.cors_origins@);
    let p3 = opt(s.ssl_cert_file@.len() > 0, "--ssl-cert-file"@, s.ssl_cert_file@);
    let p4 = opt(s.ssl_key_file@.len() > 0, "--ssl-key-file"@, s.ssl_key_file@);
    let p5 = flag(s.reuse_port, "--reuse-port"@);
    let p6 = opt(s.numa@.len() > 0, "--numa"@, s.numa@);
    assert(api_args(s) == p0 + p1 + p2 + p3 + p4 + p5 + p6);
    if s.api_key@.len() > 0 {
        assert(has_option(start_arg_list(s, model, mcp), "--api-key"@, s.api_key@)) by {
            lemma_option_here("--api-key"@, s.api_key@);
            lemma_option_before(p0, p1, "--api-key"@, s.api_key@);
            lemma_option_before(p0 + p1, p2, "--api-key"@, s.api_key@);
            lemma_option_before(p0 + p1 + p2, p3, "--api-key"@, s.api_key@);
            lemma_option_before(p0 + p1 + p2 + p3, p4, "--api-key"@, s.api_key@);
            lemma_option_before(p0 + p1 + p2 + p3 + p4, p5, "--api-key"@, s.api_key@);
            lemma_option_before(p0 + p1 + p2 + p3 + p4 + p5, p6, "--api-key"@, s.api_key@);
            lemma_api_in_start(s, model, mcp, "--api-key"@, s.api_key@);
        }
    }
    if s.api_prefix@.len() > 0 {
        assert(has_option(start_arg_list(s, model, mcp), "--api-prefix"@, s.api_prefix@)) by {
            lemma_option_here("--api-prefix"@, s.api_prefix@);
            lemma_option_after(p0, p1, "--api-prefix"@, s.api_prefix@);
            lemma_option_before(p0 + p1, p2, "--api-prefix"@, s.api_prefix@);
            lemma_option_before(p0 + p1 + p2, p3, "--api-prefix"@, s.api_prefix@);
            lemma_option_before(p0 + p1 + p2 + p3, p4, "--api-prefix"@, s.api_prefix@);
            lemma_option_before(p0 + p1 + p2 + p3 + p4, p5, "--api-prefix"@, s.api_prefix@);
            lemma_option_before(p0 + p1 + p2 + p3 + p4 + p5, p6, "--api-prefix"@, s.api_prefix@);
            lemma_api_in_start(s, model, mcp, "--api-prefix"@, s.api_prefix@);
        }
    }
    if s.cors_origins@.len() > 0 {
        assert(has_option(start_arg_list(s, model, mcp), "--cors-origins"@, s.cors_origins@)) by {
            lemma_option_here("--cors-origins"@, s.cors_origins@);
            lemma_option_after(p0 + p1, p2, "--cors-origins"@, s.cors_origins@);
            lemma_option_before(p0 + p1 + p2, p3, "--cors-origins"@, s.cors_origins@);
            lemma_option_before(p0 + p1 + p2 + p3, p4, "--cors-origins"@, s.cors_origins@);
            lemma_option_before(p0 + p1 + p2 + p3 + p4, p5, "--cors-origins"@, s.cors_origins@);
            lemma_option_before(p0 + p1 + p2 + p3 + p4 + p5, p6, "--cors-origins"@, s.cors_origins@);
            lemma_api_in_start(s, model, mcp, "--cors-origins"@, s.cors_origins@);
        }
    }
    if s.ssl_cert_file@.len() > 0 {
        assert(has_option(start_arg_list(s, model, mcp), "--ssl-cert-file"@, s.ssl_cert_file@)) by {
            lemma_option_here("--ssl-cert-file"@, s.ssl_cert_file@);
            lemma_option_after(p0 + p1 + p2, p3, "--ssl-cert-file"@, s.ssl_cert_file@);
            lemma_option_before(p0 + p1 + p2 + p3, p4, "--ssl-cert-file"@, s.ssl_cert_file@);
            lemma_option_before(p0 + p1 + p2 + p3 + p4, p5, "--ssl-cert-file"@, s.ssl_cert_file@);
            lemma_option_before(p0 + p1 + p2 + p3 + p4 + p5, p6, "--ssl-cert-file"@, s.ssl_cert_file@);
            lemma_api_in_start(s, model, mcp, "--ssl-cert-file"@, s.ssl_cert_file@);
        }
    }
    if s.ssl_key_file@.len() > 0 {
        assert(has_option(start_arg_list(s, model, mcp), "--ssl-key-file"@, s.ssl_key_file@)) by {
            lemma_option_here("--ssl-key-file"@, s.ssl_key_file@);
            lemma_option_after(p0 + p1 + p2 + p3, p4, "--ssl-key-file"@, s.ssl_key_file@);
            lemma_option_before(p0 + p1 + p2 + p3 + p4, p5, "--ssl-key-file"@, s.ssl_key_file@);
            lemma_option_before(p0 + p1 + p2 + p3 + p4 + p5, p6, "--ssl-key-file"@, s.ssl_key_file@);
            lemma_api_in_start(s, model, mcp, "--ssl-key-file"@, s.ssl_key_file@);
        }
    }
    if s.numa@.len() > 0 {
        assert(has_option(start_arg_list(s, model, mcp), "--numa"@, s.numa@)) by {
            lemma_option_here("--numa"@, s.numa@);
            lemma_option_after(p0 + p1 + p2 + p3 + p4 + p5, p6, "--numa"@, s.numa@);
            lemma_api_in_start(s, model, mcp, "--numa"@, s.numa@);
        }
    }
}

/// Flash attention, the projector file and device, the image token limits, the multimodal batch
/// limit, the video settings and the model alias reach the server each under its own option
/// with its own value.
#[verifier::spinoff_prover]
#[verifier::rlimit(60)]
pub proof fn media_options_passed(s: LaunchSettings, model: Seq<char>, mcp: Option<Seq<char>>)
    ensures
        s.flash_attn@.len() > 0 ==> has_option(start_arg_list(s, model, mcp), "--flash-attn"@, s.flash_attn@),
        s.mmproj_path@.len() > 0 ==> has_option(start_arg_list(s, model, mcp), "--mmproj"@, s.mmproj_path@),
        s.mmproj_device@ != "auto"@ ==> has_option(start_arg_list(s, model, mcp), "--mmproj-device"@, s.mmproj_device@),
        s.image_min_tokens > 0 ==> has_option(start_arg_list(s, model, mcp), "--image-min-tokens"@, dec_int(s.image_min_tokens as int)),
        s.image_max_tokens > 0 ==> has_option(start_arg_list(s, model, mcp), "--image-max-tokens"@, dec_int(s.image_max_tokens as int)),
        s.mtmd_batch_max_tokens != 1024 ==> has_option(start_arg_list(s, model, mcp), "--mtmd-batch-max-tokens"@, dec(s.mtmd_batch_max_tokens as nat)),
        s.video_fps.set ==> has_option(start_arg_list(s, model, mcp), "--video-fps"@, s.video_fps.text@),
        s.video_timestamp_interval != 5000 ==> has_option(start_arg_list(s, model, mcp), "--video-timestamp-interval"@, dec(s.video_timestamp_interval as nat)),
        s.video_ffmpeg_dir@.len() > 0 ==> has_option(start_arg_list(s, model, mcp), "--video-ffmpeg-dir"@, s.video_ffmpeg_dir@),
        s.alias@.len() > 0 ==> has_option(start_arg_list(s, model, mcp), "--alias"@, s.alias@),
{
    let p0 = opt(s.flash_attn@.len() > 0, "--flash-attn"@, s.flash_attn@);
    let p1 = opt(s.mmproj_path@.len() > 0, "--mmproj"@, s.mmproj_path@);
    let p2 = toggle(s.mmproj_auto, "--mmproj-auto"@, "--no-mmproj"@);
    let p3 = toggle(s.mmproj_offload, "--mmproj-offload"@, "--no-mmproj-offload"@);
    let p4 = opt(s.mmproj_device@ != "auto"@, "--mmproj-device"@, s.mmproj_device@);
    let p5 = opt(s.image_min_tokens > 0, "--image-min-tokens"@, dec_int(s.image_min_tokens as int));
    let p6 = opt(s.image_max_tokens > 0, "--image-max-tokens"@, dec_int(s.image_max_tokens as int));
    let p7 = opt(s.mtmd_batch_max_tokens != 1024, "--mtmd-batch-max-tokens"@, dec(s.mtmd_batch_max_tokens as nat));
    let p8 = opt(s.video_fps.set, "--video-fps"@, s.video_fps.text@);
    let p9 = opt(s.video_timestamp_interval != 5000, "--video-timestamp-interval"@, dec(s.video_timestamp_interval as nat));
    let p10 = opt(s.video_ffmpeg_dir@.len() > 0, "--video-ffmpeg-dir"@, s.video_ffmpeg_dir@);
    let p11 = opt(s.alias@.len() > 0, "--alias"@, s.alias@);
    assert(media_args(s) == p0 + p1 + p2 + p3 + p4 + p5 + p6 + p7 + p8 + p9 + p10 + p11);
    if s.flash_attn@.len() > 0 {
        assert(has_option(start_arg_list(s, model, mcp), "--flash-attn"@, s.flash_attn@)) by {
            lemma_option_here("--flash-attn"@, s.flash_attn@);
            lemma_option_before(p0, p1, "--flash-attn"@, s.flash_attn@);
            lemma_option_before(p0 + p1, p2, "--flash-attn"@, s.flash_attn@);
            lemma_option_before(p0 + p1 + p2, p3, "--flash-attn"@, s.flash_attn@);
            lemma_option_before(p0 + p1 + p2 + p3, p4, "--flash-attn"@, s.flash_attn@);
            lemma_option_before(p0 + p1 + p2 + p3 + p4, p5, "--flash-attn"@, s.flash_attn@);
            lemma_option_before(p0 + p1 + p2 + p3 + p4 + p5, p6, "--flash-attn"@, s.flash_attn@);
            lemma_option_before(p0 + p1 + p2 + p3 + p4 + p5 + p6, p7, "--flash-attn"@, s.flash_attn@);
            lemma_option_before(p0 + p1 + p2 + p3 + p4 + p5 + p6 + p7, p8, "--flash-attn"@, s.flash_attn@);
            lemma_option_before(p0 + p1 + p2 + p3 + p4 + p5 + p6 + p7 + p8, p9, "--flash-attn"@, s.flash_attn@);
            lemma_option_before(p0 + p1 + p2 + p3 + p4 + p5 + p6 + p7 + p8 + p9, p10, "--flash-attn"@, s.flash_attn@);
            lemma_option_before(p0 + p1 + p2 + p3 + p4 + p5 + p6 + p7 + p8 + p9 + p10, p11, "--flash-attn"@, s.flash_attn@);
            lemma_media_in_start(s, model, mcp, "--flash-attn"@, s.flash_attn@);
        }
    }
    if s.mmproj_path@.len() > 0 {
        assert(has_option(start_arg_list(s, model, mcp), "--mmproj"@, s.mmproj_path@)) by {
            lemma_option_here("--mmproj"@, s.mmproj_path@);
            lemma_option_after(p0, p1, "--mmproj"@, s.mmproj_path@);
            lemma_option_before(p0 + p1, p2, "--mmproj"@, s.mmproj_path@);
            lemma_option_before(p0 + p1 + p2, p3, "--mmproj"@, s.mmproj_path@);
            lemma_option_before(p0 + p1 + p2 + p3, p4, "--mmproj"@, s.mmproj_path@);
            lemma_option_before(p0 + p1 + p2 + p3 + p4, p5, "--mmproj"@, s.mmproj_path@);
            lemma_option_before(p0 + p1 + p2 + p3 + p4 + p5, p6, "--mmproj"@, s.mmproj_path@);
            lemma_option_before(p0 + p1 + p2 + p3 + p4 + p5 + p6, p7, "--mmproj"@, s.mmproj_path@);
            lemma_option_before(p0 + p1 + p2 + p3 + p4 + p5 + p6 + p7, p8, "--mmproj"@, s.mmproj_path@);
            lemma_option_before(p0 + p1 + p2 + p3 + p4 + p5 + p6 + p7 + p8, p9, "--mmproj"@, s.mmproj_path@);
            lemma_option_before(p0 + p1 + p2 + p3 + p4 + p5 + p6 + p7 + p8 + p9, p10, "--mmproj"@, s.mmproj_path@);
            lemma_option_before(p0 + p1 + p2 + p3 + p4 + p5 + p6 + p7 + p8 + p9 + p10, p11, "--mmproj"@, s.mmproj_path@);
            lemma_media_in_start(s, model, mcp, "--mmproj"@, s.mmproj_path@);
        }
    }
    if s.mmproj_device@ != "auto"@ {
        assert(has_option(start_arg_list(s, model, mcp), "--mmproj-device"@, s.mmproj_device@)) by {
            lemma_option_here("--mmproj-device"@, s.mmproj_device@);
            lemma_option_after(p0 + p1 + p2 + p3, p4, "--mmproj-device"@, s.mmproj_device@);
            lemma_option_before(p0 + p1 + p2 + p3 + p4, p5, "--mmproj-device"@, s.mmproj_device@);
            lemma_option_before(p0 + p1 + p2 + p3 + p4 + p5, p6, "--mmproj-device"@, s.mmproj_device@);
            lemma_option_before(p0 + p1 + p2 + p3 + p4 + p5 + p6, p7, "--mmproj-device"@, s.mmproj_device@);
            lemma_option_before(p0 + p1 + p2 + p3 + p4 + p5 + p6 + p7, p8, "--mmproj-device"@, s.mmproj_device@);
            lemma_option_before(p0 + p1 + p2 + p3 + p4 + p5 + p6 + p7 + p8, p9, "--mmproj-device"@, s.mmproj_device@);
            lemma_option_before(p0 + p1 + p2 + p3 + p4 + p5 + p6 + p7 + p8 + p9, p10, "--mmproj-device"@, s.mmproj_device@);
            lemma_option_before(p0 + p1 + p2 + p3 + p4 + p5 + p6 + p7 + p8 + p9 + p10, p11, "--mmproj-device"@, s.mmproj_device@);
            lemma_media_in_start(s, model, mcp, "--mmproj-device"@, s.mmproj_device@);
        }
    }
    if s.image_min_tokens > 0 {
        assert(has_option(start_arg_list(s, model, mcp), "--image-min-tokens"@, dec_int(s.image_min_tokens as int))) by {
            lemma_option_here("--image-min-tokens"@, dec_int(s.image_min_tokens as int));
            lemma_option_after(p0 + p1 + p2 + p3 + p4, p5, "--image-min-tokens"@, dec_int(s.image_min_tokens as int));
            lemma_option_before(p0 + p1 + p2 + p3 + p4 + p5, p6, "--image-min-tokens"@, dec_int(s.image_min_tokens as int));
            lemma_option_before(p0 + p1 + p2 + p3 + p4 + p5 + p6, p7, "--image-min-tokens"@, dec_int(s.image_min_tokens as int));
            lemma_option_before(p0 + p1 + p2 + p3 + p4 + p5 + p6 + p7, p8, "--image-min-tokens"@, dec_int(s.image_min_tokens as int));
            lemma_option_before(p0 + p1 + p2 + p3 + p4 + p5 + p6 + p7 + p8, p9, "--image-min-tokens"@, dec_int(s.image_min_tokens as int));
            lemma_option_before(p0 + p1 + p2 + p3 + p4 + p5 + p6 + p7 + p8 + p9, p10, "--image-min-tokens"@, dec_int(s.image_min_tokens as int));
            lemma_option_before(p0 + p1 + p2 + p3 + p4 + p5 + p6 + p7 + p8 + p9 + p10, p11, "--image-min-tokens"@, dec_int(s.image_min_tokens as int));
            lemma_media_in_start(s, model, mcp, "--image-min-tokens"@, dec_int(s.image_min_tokens as int));
        }
    }
    if s.image_max_tokens > 0 {
        assert(has_option(start_arg_list(s, model, mcp), "--image-max-tokens"@, dec_int(s.image_max_tokens as int))) by {
            lemma_option_here("--image-max-tokens"@, dec_int(s.image_max_tokens as int));
            lemma_option_after(p0 + p1 + p2 + p3 + p4 + p5, p6, "--image-max-tokens"@, dec_int(s.image_max_tokens as int));
            lemma_option_before(p0 + p1 + p2 + p3 + p4 + p5 + p6, p7, "--image-max-tokens"@, dec_int(s.image_max_tokens as int));
            lemma_option_before(p0 + p1 + p2 + p3 + p4 + p5 + p6 + p7, p8, "--image-max-tokens"@, dec_int(s.image_max_tokens as int));
            lemma_option_before(p0 + p1 + p2 + p3 + p4 + p5 + p6 + p7 + p8, p9, "--image-max-tokens"@, dec_int(s.image_max_tokens as int));
            lemma_option_before(p0 + p1 + p2 + p3 + p4 + p5 + p6 + p7 + p8 + p9, p10, "--image-max-tokens"@, dec_int(s.image_max_tokens as int));
            lemma_option_before(p0 + p1 + p2 + p3 + p4 + p5 + p6 + p7 + p8 + p9 + p10, p11, "--image-max-tokens"@, dec_int(s.image_max_tokens as int));
            lemma_media_in_start(s, model, mcp, "--image-max-tokens"@, dec_int(s.image_max_tokens as int));
        }
    }
    if s.mtmd_batch_max_tokens != 1024 {
        assert(has_option(start_arg_list(s, model, mcp), "--mtmd-batch-max-tokens"@, dec(s.mtmd_batch_max_tokens as nat))) by {
            lemma_option_here("--mtmd-batch-max-tokens"@, dec(s.mtmd_batch_max_tokens as nat));
            lemma_option_after(p0 + p1 + p2 + p3 + p4 + p5 + p6, p7, "--mtmd-batch-max-tokens"@, dec(s.mtmd_batch_max_tokens as nat));
            lemma_option_before(p0 + p1 + p2 + p3 + p4 + p5 + p6 + p7, p8, "--mtmd-batch-max-tokens"@, dec(s.mtmd_batch_max_tokens as nat));
            lemma_option_before(p0 + p1 + p2 + p3 + p4 + p5 + p6 + p7 + p8, p9, "--mtmd-batch-max-tokens"@, dec(s.mtmd_batch_max_tokens as nat));
            lemma_option_before(p0 + p1 + p2 + p3 + p4 + p5 + p6 + p7 + p8 + p9, p10, "--mtmd-batch-max-tokens"@, dec(s.mtmd_batch_max_tokens as nat));
            lemma_option_before(p0 + p1 + p2 + p3 + p4 + p5 + p6 + p7 + p8 + p9 + p10, p11, "--mtmd-batch-max-tokens"@, dec(s.mtmd_batch_max_tokens as nat));
            lemma_media_in_start(s, model, mcp, "--mtmd-batch-max-tokens"@, dec(s.mtmd_batch_max_tokens as nat));
        }
    }
    if s.video_fps.set {
        assert(has_option(start_arg_list(s, model, mcp), "--video-fps"@, s.video_fps.text@)) by {
            lemma_option_here("--video-fps"@, s.video_fps.text@);
            lemma_option_after(p0 + p1 + p2 + p3 + p4 + p5 + p6 + p7, p8, "--video-fps"@, s.video_fps.text@);
            lemma_option_before(p0 + p1 + p2 + p3 + p4 + p5 + p6 + p7 + p8, p9, "--video-fps"@, s.video_fps.text@);
            lemma_option_before(p0 + p1 + p2 + p3 + p4 + p5 + p6 + p7 + p8 + p9, p10, "--video-fps"@, s.video_fps.text@);
            lemma_option_before(p0 + p1 + p2 + p3 + p4 + p5 + p6 + p7 + p8 + p9 + p10, p11, "--video-fps"@, s.video_fps.text@);
            lemma_media_in_start(s, model, mcp, "--video-fps"@, s.video_fps.text@);
        }
    }
    if s.video_timestamp_interval != 5000 {
        assert(has_option(start_arg_list(s, model, mcp), "--video-timestamp-interval"@, dec(s.video_timestamp_interval as nat))) by {
            lemma_option_here("--video-timestamp-interval"@, dec(s.video_timestamp_interval as nat));
            lemma_option_after(p0 + p1 + p2 + p3 + p4 + p5 + p6 + p7 + p8, p9, "--video-timestamp-interval"@, dec(s.video_timestamp_interval as nat));
            lemma_option_before(p0 + p1 + p2 + p3 + p4 + p5 + p6 + p7 + p8 + p9, p10, "--video-timestamp-interval"@, dec(s.video_timestamp_interval as nat));
            lemma_option_before(p0 + p1 + p2 + p3 + p4 + p5 + p6 + p7 + p8 + p9 + p10, p11, "--video-timestamp-interval"@, dec(s.video_timestamp_interval as nat));
            lemma_media_in_start(s, model, mcp, "--video-timestamp-interval"@, dec(s.video_timestamp_interval as nat));
        }
    }
    if s.video_ffmpeg_dir@.len() > 0 {
        assert(has_option(start_arg_list(s, model, mcp), "--video-ffmpeg-dir"@, s.video_ffmpeg_dir@)) by {
            lemma_option_here("--video-ffmpeg-dir"@, s.video_ffmpeg_dir@);
            lemma_option_after(p0 + p1 + p2 + p3 + p4 + p5 + p6 + p7 + p8 + p9, p10, "--video-ffmpeg-dir"@, s.video_ffmpeg_dir@);
            lemma_option_before(p0 + p1 + p2 + p3 + p4 + p5 + p6 + p7 + p8 + p9 + p10, p11, "--video-ffmpeg-dir"@, s.video_ffmpeg_dir@);
            lemma_media_in_start(s, model, mcp, "--video-ffmpeg-dir"@, s.video_ffmpeg_dir@);
        }
    }
    if s.alias@.len() > 0 {
        assert(has_option(start_arg_list(s, model, mcp), "--alias"@, s.alias@)) by {
            lemma_option_here("--alias"@, s.alias@);
            lemma_option_after(p0 + p1 + p2 + p3 + p4 + p5 + p6 + p7 + p8 + p9 + p10, p11, "--alias"@, s.alias@);
            lemma_media_in_start(s, model, mcp, "--alias"@, s.alias@);
        }
    }
}

} // verus!
