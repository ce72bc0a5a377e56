use llama_cpp_launcher::launch::{
    build_launch_command, command_line, start_args, FloatParam, LaunchSettings,
};
use llama_cpp_launcher::settings::GpuLayersMode;

fn unset(text: &str) -> FloatParam {
    FloatParam { text: text.to_string(), set: false }
}

fn base() -> LaunchSettings {
    LaunchSettings {
        server_path: "/opt/llama/llama-server".to_string(),
        host: "127.0.0.1".to_string(),
        port: 8080,
        context: 4,
        parallel_slots: 1,
        batch_size: 2,
        ubatch_tokens: 512,
        session_timeout: 600,
        gpu_layers_mode: GpuLayersMode::Auto,
        rpc_mode: false,
        rpc_endpoints: String::new(),
        temperature: "0.8".to_string(),
        enable_temperature: false,
        top_p: "0.95".to_string(),
        enable_top_p: false,
        top_k: 40,
        enable_top_k: false,
        repeat_penalty: "1.1".to_string(),
        enable_repeat_penalty: false,
        presence_penalty: "0".to_string(),
        enable_presence_penalty: false,
        reasoning: "auto".to_string(),
        reasoning_format: "auto".to_string(),
        reasoning_effort: "default".to_string(),
        reasoning_budget: -1,
        reasoning_preserve: None,
        chat_template: String::new(),
        chat_template_file: String::new(),
        jinja_enabled: true,
        enable_min_p: false,
        min_p: unset("0.05"),
        enable_top_n_sigma: false,
        top_n_sigma: unset("0"),
        enable_xtc: false,
        xtc_probability: unset("0"),
        xtc_threshold: unset("1"),
        enable_typical_p: false,
        typical_p: unset("1"),
        enable_mirostat: false,
        mirostat: 0,
        mirostat_lr: unset("0.1"),
        mirostat_ent: unset("5"),
        enable_dynatemp: false,
        dynatemp_range: unset("0"),
        dynatemp_exp: unset("1"),
        sampler_seq: String::new(),
        flash_attn: "auto".to_string(),
        mmproj_path: String::new(),
        mmproj_auto: true,
        mmproj_offload: true,
        mmproj_device: "auto".to_string(),
        image_min_tokens: 0,
        image_max_tokens: 0,
        mtmd_batch_max_tokens: 1024,
        video_fps: unset("4"),
        video_timestamp_interval: 5000,
        video_ffmpeg_dir: String::new(),
        alias: String::new(),
        dflash_path: String::new(),
        spec_type: "none".to_string(),
        enable_spec_draft_n_max: false,
        spec_draft_n_max: 16,
        enable_spec_draft_n_min: false,
        spec_draft_n_min: 0,
        enable_spec_draft_p_min: false,
        spec_draft_p_min: "0.75".to_string(),
        enable_spec_draft_p_split: false,
        spec_draft_p_split: "0.1".to_string(),
        enable_spec_draft_type_k: false,
        spec_draft_type_k: String::new(),
        enable_spec_draft_type_v: false,
        spec_draft_type_v: String::new(),
        spec_ngram_size_n: 12,
        spec_ngram_size_m: 48,
        spec_ngram_min_hits: 1,
        spec_ngram_mod_n_min: 48,
        spec_ngram_mod_n_max: 64,
        spec_ngram_mod_n_match: 24,
        kv_offload: true,
        cache_type_k: "f16".to_string(),
        cache_type_v: "f16".to_string(),
        kv_unified: false,
        swa_full: false,
        load_mode: "auto".to_string(),
        tensor_read_lazy: "auto".to_string(),
        ctx_checkpoints: 32,
        checkpoint_min_step: 512,
        split_mode: "layer".to_string(),
        tensor_split: String::new(),
        cpu_moe: false,
        n_cpu_moe: 0,
        override_tensor: String::new(),
        threads: -1,
        threads_batch: -1,
        n_predict: -1,
        keep: 0,
        seed: -1,
        main_gpu: 0,
        device: String::new(),
        cache_prompt: true,
        cache_reuse: 0,
        context_shift: false,
        json_schema: String::new(),
        grammar: String::new(),
        verbose: false,
        log_timestamps: true,
        log_verbosity: 3,
        offline_mode: false,
        web_ui_enabled: true,
        api_key: String::new(),
        api_prefix: String::new(),
        cors_origins: String::new(),
        ssl_cert_file: String::new(),
        ssl_key_file: String::new(),
        reuse_port: false,
        numa: String::new(),
    }
}

#[test]
fn start_arguments_for_defaults() {
    let s = base();
    let args = start_args(&s, "/m/model.gguf", &None);
    let text = args.join(" ");
    assert_eq!(
        text,
        "--model /m/model.gguf --host 127.0.0.1 --port 8080 --ctx-size 4096 --parallel 1 \
--batch-size 2048 --ubatch-size 512 --timeout 600 --gpu-layers auto --jinja \
--flash-attn auto --mmproj-auto --mmproj-offload --kv-offload --cache-type-k f16 \
--cache-type-v f16 --main-gpu 0 --cache-prompt --log-timestamps --log-verbosity 3 --webui"
    );
}

#[test]
fn shown_command_is_the_start_command() {
    let s = base();
    let cmd = build_launch_command(&s, "/m/model.gguf", &None);
    let started = start_args(&s, "/m/model.gguf", &None);
    assert_eq!(cmd, format!("/opt/llama/llama-server {}", started.join(" ")));
    assert!(cmd.contains(" --main-gpu 0 "));
    let with_mcp = build_launch_command(&s, "m.gguf", &Some("/tmp/mcp.json".to_string()));
    assert!(with_mcp.contains("--webui --mcp-servers-config /tmp/mcp.json"));
}

#[test]
fn main_gpu_written_for_every_card_index() {
    let mut s = base();
    s.main_gpu = 1;
    assert!(start_args(&s, "m.gguf", &None).join(" ").contains("--main-gpu 1"));
    s.main_gpu = -1;
    assert!(!start_args(&s, "m.gguf", &None).join(" ").contains("--main-gpu"));
    assert!(!build_launch_command(&s, "m.gguf", &None).contains("--main-gpu"));
}

#[test]
fn rpc_and_sampling_options() {
    let mut s = base();
    s.rpc_mode = true;
    s.rpc_endpoints = " 10.0.0.2:50052+ ,10.0.0.3:50052".to_string();
    s.enable_temperature = true;
    s.enable_top_k = true;
    s.reasoning_budget = 0;
    s.reasoning_preserve = Some(false);
    s.jinja_enabled = false;
    s.enable_xtc = true;
    s.xtc_probability = FloatParam { text: "0.5".to_string(), set: true };
    s.xtc_threshold = FloatParam { text: "0.1".to_string(), set: true };
    let args = start_args(&s, "m.gguf", &None);
    assert_eq!(&args[0..2], &["--rpc".to_string(), "10.0.0.2:50052,10.0.0.3:50052".to_string()]);
    let text = args.join(" ");
    assert!(text.contains("--gpu-layers auto --temperature 0.8 --top-k 40 --reasoning-budget 0 --no-reasoning-preserve --no-jinja"));
    assert!(text.contains("--xtc-probability 0.5 --xtc-threshold 0.1"));
}

#[test]
fn speculative_and_kv_options() {
    let mut s = base();
    s.spec_type = "ngram-map-k".to_string();
    s.kv_offload = false;
    s.load_mode = "mmap".to_string();
    let started = start_args(&s, "m.gguf", &Some("/tmp/mcp.json".to_string())).join(" ");
    assert!(started.contains("--spec-type ngram-map-k --spec-ngram-map-k-size-n 12 --spec-ngram-map-k-size-m 48 --spec-ngram-map-k-min-hits 1 --no-kv-offload --cache-type-k f16 --cache-type-v f16 --load-mode mmap"));
    assert!(started.contains("--webui --mcp-servers-config /tmp/mcp.json"));
}

#[test]
fn ngram_mod_options() {
    let mut s = base();
    s.spec_type = "ngram-mod".to_string();
    let started = start_args(&s, "m.gguf", &None).join(" ");
    assert!(started.contains("--spec-type ngram-mod --spec-ngram-mod-n-min 48 --spec-ngram-mod-n-max 64 --spec-ngram-mod-n-match 24"));
}

#[test]
fn draft_options_only_for_draft_types() {
    let mut s = base();
    s.dflash_path = "/m/draft.gguf".to_string();
    s.enable_spec_draft_n_max = true;
    let no_draft = start_args(&s, "m.gguf", &None).join(" ");
    assert!(no_draft.contains("--model-draft /m/draft.gguf"));
    assert!(!no_draft.contains("--spec-draft-n-max"));
    s.spec_type = "draft-simple".to_string();
    let with_draft = start_args(&s, "m.gguf", &None).join(" ");
    assert!(with_draft.contains("--spec-type draft-simple --spec-draft-n-max 16"));
}

#[test]
fn command_line_joins_with_spaces() {
    let args = vec!["--a".to_string(), "1".to_string()];
    assert_eq!(command_line("srv", &args), "srv --a 1");
    assert_eq!(command_line("srv", &vec![]), "srv ");
}
