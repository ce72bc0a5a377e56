use llama_cpp_launcher::file_list::{folder_headers, sort_order};
use llama_cpp_launcher::json::{json_eq, json_field, parse_json, Json};
use llama_cpp_launcher::presets::{apply_members, param_keys, pick_members, preset_keys};
use llama_cpp_launcher::mcp::{
    count_enabled, mcp_servers_of, mcp_switch_defaults, merge_server_states, parse_mcp_servers,
};
use llama_cpp_launcher::model_meta::model_dims;
use llama_cpp_launcher::appearance::{
    dark_mode, frame_language, startup_language, startup_system_dark, system_dark_from_registry,
    Language,
};
use llama_cpp_launcher::autostart::{desktop_entry, run_entry_value, web_client_url};
use llama_cpp_launcher::dirtree::DirNode;
use llama_cpp_launcher::engine::{
    classify_log_line, clean_rpc_endpoints, detect_log_level, exit_log_entry, is_shard_file, log_text,
    progress_token, resolve_shard_name, first_shard_name_from, ErrorInfo, LogBuffer, LogEntry,
    LogLevel, MessageKey,
    ServerState, MAX_LOG_LINES,
};
use llama_cpp_launcher::geo::{is_china_mainland, should_use_mirror_first, LocaleHints};
use llama_cpp_launcher::model_files::{
    collect_model_files, include_model_file, is_dflash_file, is_mmproj_file, parse_tags,
    pick_model_dir, FileMode, TagKind,
};
use llama_cpp_launcher::panels::{
    device_list, panel_request, preset_rename, preset_save_target, rpc_control, server_control,
    startup_preset, PresetPanelRequest, PresetSave, ServerControl,
};
use llama_cpp_launcher::platform::{Platform, TargetOs};
use llama_cpp_launcher::proxy::{registry_proxy_address, system_proxy_from_registry};
use llama_cpp_launcher::systemd::build_systemd_service_file;
use llama_cpp_launcher::theme::parse_hex;
use llama_cpp_launcher::updater::{
    is_newer, pick_launcher_asset, trim_v, ReleaseAsset, UpdateState, UpdateStatus,
};
use llama_cpp_launcher::version::{
    extract_build_tag, llama_update_available, version_from_output, UNKNOWN_VERSION,
};

const LINUX_X64: Platform = Platform { os: TargetOs::Linux, aarch64: false };
const WINDOWS_X64: Platform = Platform { os: TargetOs::Windows, aarch64: false };

fn no_hints() -> LocaleHints {
    LocaleHints { windows_timezone: None, lang: None, lc_all: None, lc_messages: None }
}

fn entry(text: &str) -> LogEntry {
    LogEntry { text: text.to_string(), level: LogLevel::Info }
}

#[test]
fn test_is_china_mainland() {
    let _result = is_china_mainland(LINUX_X64, &no_hints());
}

#[test]
fn test_should_use_mirror_first() {
    let _result = should_use_mirror_first(LINUX_X64, &no_hints());
}

#[test]
fn china_mainland_from_locale_and_time_zone() {
    let mut hints = no_hints();
    assert!(!is_china_mainland(LINUX_X64, &hints));
    hints.lc_all = Some("zh_CN.UTF-8".to_string());
    assert!(is_china_mainland(LINUX_X64, &hints));
    assert!(should_use_mirror_first(LINUX_X64, &hints));
    hints.lc_all = Some("zh_TW.UTF-8".to_string());
    assert!(!is_china_mainland(LINUX_X64, &hints));
    let mut win = no_hints();
    win.windows_timezone = Some(" China Standard Time\r\n".to_string());
    assert!(is_china_mainland(WINDOWS_X64, &win));
    win.windows_timezone = Some("W. Europe Standard Time".to_string());
    assert!(!is_china_mainland(WINDOWS_X64, &win));
    win.windows_timezone = Some("Pacific Standard Time".to_string());
    win.lc_all = Some("zh_CN.UTF-8".to_string());
    assert!(is_china_mainland(WINDOWS_X64, &win));
    let mut win2 = no_hints();
    win2.lc_messages = Some("zh_CN".to_string());
    assert!(is_china_mainland(WINDOWS_X64, &win2));
    win2.lc_messages = None;
    win2.lang = Some("zh_CN.UTF-8".to_string());
    assert!(!is_china_mainland(WINDOWS_X64, &win2));
}

#[test]
fn log_levels() {
    assert_eq!(detect_log_level("0.00.035.060 I main: loading"), Some(LogLevel::Info));
    assert_eq!(detect_log_level("  1.02.3 W slow"), Some(LogLevel::Warn));
    assert_eq!(detect_log_level("1.02.3 E"), Some(LogLevel::Error));
    assert_eq!(detect_log_level("1.02 E failed"), None);
    assert_eq!(detect_log_level("main: started"), None);
    assert_eq!(classify_log_line("something WARN here"), LogLevel::Warn);
    assert_eq!(classify_log_line("an error occurred"), LogLevel::Error);
    assert_eq!(classify_log_line("all good"), LogLevel::Info);
    assert_eq!(classify_log_line("0.1.2 I warn in text"), LogLevel::Info);
}

#[test]
fn progress_values() {
    assert_eq!(progress_token("prompt progress = 0.42, n = 3"), Some("0.42".to_string()));
    assert_eq!(progress_token("progress = 1.0"), Some("1.0".to_string()));
    assert_eq!(progress_token("no value here"), None);
}

#[test]
fn log_buffer_is_bounded() {
    let mut b = LogBuffer::new();
    for i in 0..(MAX_LOG_LINES + 5) {
        b.push(entry(&format!("line {}", i)));
    }
    assert_eq!(b.len(), MAX_LOG_LINES);
    let all = b.entries();
    assert_eq!(all[0].text, "line 5");
    assert!(!b.is_listening());
    b.push(entry("main: llama_server: listening on http://127.0.0.1:8080"));
    assert!(b.is_listening());
    b.clear();
    assert_eq!(b.len(), 0);
}

#[test]
fn server_state_machine() {
    let mut st = ServerState::Idle;
    assert!(!st.begin_start("", "m.gguf", 8080, 50052));
    assert_eq!(st, ServerState::Error(ErrorInfo::Key(MessageKey::ErrServerModelMissing)));
    assert!(!st.begin_start("srv", "m.gguf", 8080, 8080));
    assert_eq!(st, ServerState::Error(ErrorInfo::Key(MessageKey::ErrPortConflict)));
    assert!(st.begin_start("srv", "m.gguf", 8080, 50052));
    assert_eq!(st, ServerState::Starting);
    st.after_poll(false);
    assert!(st.is_running());
    assert!(!st.begin_start("srv", "m.gguf", 8080, 50052));
    st.after_poll(true);
    assert_eq!(st, ServerState::Idle);
    st.start_failed("no such file".to_string());
    assert_eq!(st.status_text("Error", "Start failed"), "Error: Start failed: no such file");
    assert_eq!(ServerState::Running.status_text("Running", "x"), "Running");
}

#[test]
fn exit_lines() {
    let ok = exit_log_entry(true, Some(0), "Server exited", "Server crashed");
    assert_eq!(ok.text, "Server exited");
    assert_eq!(ok.level, LogLevel::Warn);
    let bad = exit_log_entry(false, Some(-11), "Server exited", "Server crashed");
    assert_eq!(bad.text, "Server crashed: Some(-11)");
    let none = exit_log_entry(false, None, "Server exited", "Server crashed");
    assert_eq!(none.text, "Server crashed: None");
}

#[test]
fn split_model_files() {
    assert!(is_shard_file("model.gguf.part2of3"));
    assert!(is_shard_file("model.gguf.part2of3.gguf"));
    assert!(!is_shard_file("model.gguf"));
    assert_eq!(resolve_shard_name("model.gguf.part2of3"), "model.gguf.part1of3");
    assert_eq!(resolve_shard_name("m.part3of12.gguf"), "m.part1of12.gguf");
}

#[test]
fn rpc_endpoint_cleaning() {
    assert_eq!(clean_rpc_endpoints(" a:1++ , b:2"), "a:1,b:2");
    assert_eq!(clean_rpc_endpoints(""), "");
}

#[test]
fn version_comparison() {
    assert!(is_newer("v0.1.20", "0.1.19"));
    assert!(!is_newer("v0.1.19", "0.1.19"));
    assert!(is_newer("0.2", "0.1.99"));
    assert!(is_newer("1.0.1", "1.0"));
    assert!(!is_newer("1.0", "1.0.1"));
    assert_eq!(trim_v("vv1.2"), "1.2");
}

#[test]
fn launcher_asset_choice() {
    let a = |n: &str| ReleaseAsset { name: n.to_string(), size: 1, browser_download_url: String::new() };
    let assets = vec![a("notes.txt"), a("llama_cpp_launcher_v0.2.0.exe"), a("llama_cpp_launcher_v0.2.0b.exe")];
    assert_eq!(pick_launcher_asset(&assets).unwrap().name, "llama_cpp_launcher_v0.2.0.exe");
    assert!(pick_launcher_asset(&assets[..1]).is_none());
}

#[test]
fn update_status_flow() {
    let mut st = UpdateStatus::default();
    assert!(st.begin_check());
    assert!(!st.begin_check());
    st.finish_check(Ok("v9.9.9".to_string()), "0.1.0");
    assert_eq!(st.state, UpdateState::Available("9.9.9".to_string()));
    assert!(st.can_install());
    let mut same = UpdateStatus::default();
    same.begin_check();
    same.finish_check(Ok("v0.1.0".to_string()), "0.1.0");
    assert_eq!(same.state, UpdateState::UpToDate);
}

#[test]
fn accent_colours() {
    assert_eq!(parse_hex("#0A84FF"), [10, 132, 255]);
    assert_eq!(parse_hex("##ff0000"), [255, 0, 0]);
    assert_eq!(parse_hex("nonsense"), [10, 132, 255]);
    assert_eq!(parse_hex("#12345G"), [10, 132, 255]);
    assert_eq!(parse_hex("aé234"), [10, 132, 255]);
    assert_eq!(parse_hex("#1é2345"), [10, 132, 255]);
}

#[test]
fn version_output_parsing() {
    let out = "ggml_cuda_init: found 1 device\nversion: 5602 (abc123)\nbuilt with cc";
    assert_eq!(version_from_output(out, ""), "5602 (abc123)");
    let eq = "version = b10549 (b10549, 1a2b3c)";
    assert_eq!(version_from_output("", eq), "b10549 (b10549, 1a2b3c)");
    assert_eq!(version_from_output("nothing here", "no luck"), UNKNOWN_VERSION);
    assert_eq!(version_from_output("version:   ", ""), UNKNOWN_VERSION);
    assert_eq!(extract_build_tag("b10549 (b10549, 1a2b3c)"), Some("b10549".to_string()));
    assert_eq!(extract_build_tag("build abc b42x"), Some("b42".to_string()));
    assert_eq!(extract_build_tag("no tag b"), None);
}

#[test]
fn model_file_tags() {
    let tags = parse_tags("Qwen3-8B-Instruct-Q4_K_M--32k-v2.5.gguf");
    let expected = vec![
        ("Qwen3".to_string(), TagKind::Name),
        ("8B".to_string(), TagKind::ParamSize),
        ("Instruct".to_string(), TagKind::TrainingMethod),
        ("Q4_K_M".to_string(), TagKind::Quantization),
        ("32k".to_string(), TagKind::ContextLength),
        ("v2.5".to_string(), TagKind::Name),
    ];
    assert_eq!(tags, expected);
    assert_eq!(parse_tags("x-Q8_0.gguf")[1].1, TagKind::Quantization);
    assert_eq!(parse_tags("x-IQ3_XS")[1].1, TagKind::Quantization);
    assert_eq!(parse_tags("a-1.5-bf16-lora")[1].1, TagKind::Version);
    assert_eq!(parse_tags("a-1.5-bf16-lora")[2].1, TagKind::Precision);
    assert_eq!(parse_tags("a-1.5-bf16-lora")[3].1, TagKind::Adapter);
    assert_eq!(parse_tags("rwkv7")[0].1, TagKind::Architecture);
    assert_eq!(TagKind::ParamSize.rgb(), [180, 120, 255]);
    let legend = parse_tags("Qwen2.5-7B-Instruct-Q4_K_M.gguf");
    let colours: Vec<(String, [u8; 3])> = legend.iter().map(|(t, k)| (t.clone(), k.rgb())).collect();
    assert_eq!(
        colours,
        vec![
            ("Qwen2.5".to_string(), [100, 150, 255]),
            ("7B".to_string(), [180, 120, 255]),
            ("Instruct".to_string(), [100, 200, 100]),
            ("Q4_K_M".to_string(), [255, 165, 0]),
        ]
    );
    assert_eq!(TagKind::Name.rgb(), [100, 150, 255]);
}

#[test]
fn model_file_kinds() {
    assert!(is_mmproj_file("mmproj-Qwen-F16.gguf"));
    assert!(is_mmproj_file("Vision-Proj.gguf"));
    assert!(!is_mmproj_file("Qwen.gguf"));
    assert!(is_dflash_file("Qwen-DFlash.gguf"));
    assert!(include_model_file("Qwen.GGUF", FileMode::Main));
    assert!(!include_model_file("Qwen.bin", FileMode::Main));
    assert!(!include_model_file("clip.gguf", FileMode::Main));
    assert!(include_model_file("clip.gguf", FileMode::Mmproj));
    assert!(include_model_file("x-dflash.gguf", FileMode::Dflash));
}

#[test]
fn model_file_collection() {
    let sub = DirNode {
        name: "sub".to_string(),
        path: "/m/sub".to_string(),
        files: vec!["b.gguf".to_string(), "mmproj.gguf".to_string()],
        dirs: vec![],
    };
    let root = DirNode {
        name: "m".to_string(),
        path: "/m".to_string(),
        files: vec!["a.gguf".to_string(), "readme.md".to_string()],
        dirs: vec![sub],
    };
    assert_eq!(
        collect_model_files(&root, FileMode::Main),
        vec![("/m".to_string(), "a.gguf".to_string()), ("/m/sub".to_string(), "b.gguf".to_string())]
    );
    assert_eq!(
        collect_model_files(&root, FileMode::Mmproj),
        vec![("/m/sub".to_string(), "mmproj.gguf".to_string())]
    );
}

#[test]
fn model_dir_choice() {
    let dirs = vec!["bin".to_string(), "Model".to_string(), "MODELS".to_string()];
    assert_eq!(pick_model_dir(&dirs), Some(2));
    assert_eq!(pick_model_dir(&dirs[..2]), Some(1));
    assert_eq!(pick_model_dir(&dirs[..1]), None);
}

#[test]
fn systemd_unit_file() {
    let template = "[Unit]\nDescription=llama\n\n\n[Service]\nUser=your-username\nWorkingDirectory=/home/your-username\nExecStart=/usr/bin/llama-server \\\n    --model x \\\n    --port 1\nRestart=always\n\n[Install]\n";
    let unit = build_systemd_service_file(template, "/opt/llama-server --port 8080", Some("alice"), Some("/home/alice"));
    assert_eq!(
        unit,
        "[Unit]\nDescription=llama\n\n[Service]\nUser=alice\nWorkingDirectory=/home/alice\nExecStart=/opt/llama-server --port 8080\n\nRestart=always\n\n[Install]"
    );
    let fallback = build_systemd_service_file("User=your-username\nHome=/home/your-username", "c", None, None);
    assert_eq!(fallback, "User=your-username\nHome=/home/your-username");
    let no_home = build_systemd_service_file("H=/home/your-username", "c", Some("bob"), None);
    assert_eq!(no_home, "H=/home/bob");
}

#[test]
fn autostart_entries() {
    assert_eq!(run_entry_value("C:\\l.exe", true), "\"C:\\l.exe\" --minimized");
    assert_eq!(run_entry_value("C:\\l.exe", false), "\"C:\\l.exe\"");
    assert_eq!(
        desktop_entry("/opt/l", true),
        "[Desktop Entry]\nType=Application\nName=LLama Launcher\nExec=/opt/l --minimized\nHidden=false\nNoDisplay=false\nX-GNOME-Autostart-enabled=true\n"
    );
    assert_eq!(web_client_url(8080), "http://127.0.0.1:8080");
}

#[test]
fn registry_proxy() {
    let out = "\r\nHKEY_CURRENT_USER\\Software\r\n    ProxyEnable    REG_DWORD    0x1\r\n    ProxyServer    REG_SZ    127.0.0.1:7890\r\n";
    assert_eq!(registry_proxy_address(out), Some("http://127.0.0.1:7890".to_string()));
    let off = "    ProxyEnable    REG_DWORD    0x0\r\n    ProxyServer    REG_SZ    127.0.0.1:7890\r\n";
    assert_eq!(registry_proxy_address(off), None);
    let scheme = "ProxyEnable REG_DWORD 0x1\nProxyServer REG_SZ socks5://h:1\n";
    assert_eq!(registry_proxy_address(scheme), Some("socks5://h:1".to_string()));
}

#[test]
fn preset_panel_requests() {
    assert_eq!(panel_request(true, true), PresetPanelRequest::StartServer);
    assert_eq!(panel_request(false, true), PresetPanelRequest::StartRpc);
    assert_eq!(panel_request(false, false), PresetPanelRequest::NoAction);
}

#[test]
fn startup_language_follows_setting_then_locale() {
    assert_eq!(startup_language("en", "zh-CN"), Language::En);
    assert_eq!(startup_language("zh", "en-US"), Language::Zh);
    assert_eq!(startup_language("fr", "en-US"), Language::Zh);
    assert_eq!(startup_language("", "zh-CN"), Language::Zh);
    assert_eq!(startup_language("", "en-US"), Language::En);
    assert_eq!(startup_language("", ""), Language::En);
}

#[test]
fn frame_language_keeps_current_for_other_settings() {
    assert_eq!(frame_language("en", Language::Zh), Language::En);
    assert_eq!(frame_language("zh", Language::En), Language::Zh);
    assert_eq!(frame_language("", Language::En), Language::En);
    assert_eq!(frame_language("auto", Language::Zh), Language::Zh);
}

#[test]
fn registry_theme_lines() {
    let dark = "\r\nHKEY_CURRENT_USER\\Software\\Microsoft\\Windows\\CurrentVersion\\Themes\\Personalize\r\n    AppsUseLightTheme    REG_DWORD    0x0\r\n\r\n";
    assert_eq!(system_dark_from_registry(dark), Some(true));
    let light = "    AppsUseLightTheme    REG_DWORD    0x1\r\n";
    assert_eq!(system_dark_from_registry(light), Some(false));
    assert_eq!(system_dark_from_registry("nothing here\n"), None);
    assert_eq!(system_dark_from_registry(""), None);
    let both = "AppsUseLightTheme REG_DWORD 0x0\nAppsUseLightTheme REG_DWORD 0x1\n";
    assert_eq!(system_dark_from_registry(both), Some(false));
}

#[test]
fn startup_appearance_and_dark_mode() {
    assert_eq!(startup_system_dark("auto", Some(true)), Some(true));
    assert_eq!(startup_system_dark("auto", None), Some(false));
    assert_eq!(startup_system_dark("dark", Some(true)), None);
    assert!(dark_mode("auto", Some(true)));
    assert!(!dark_mode("auto", None));
    assert!(dark_mode("dark", Some(false)));
    assert!(!dark_mode("light", Some(true)));
}

fn meta(entries: &[(&str, Option<u64>)]) -> Vec<(String, Option<u64>)> {
    entries.iter().map(|(k, v)| (k.to_string(), *v)).collect()
}

#[test]
fn model_dims_from_architecture_keys() {
    let kv = meta(&[
        ("general.architecture", None),
        ("llama.context_length", Some(131072)),
        ("llama.embedding_length", Some(4096)),
        ("llama.block_count", Some(32)),
        ("qwen2.block_count", Some(28)),
    ]);
    let d = model_dims("llama", &kv);
    assert_eq!(d.context_length, Some(131072));
    assert_eq!(d.embedding_length, Some(4096));
    assert_eq!(d.block_count, Some(32));
    let q = model_dims("qwen2", &kv);
    assert_eq!(q.context_length, None);
    assert_eq!(q.embedding_length, None);
    assert_eq!(q.block_count, Some(28));
}

#[test]
fn model_dims_general_context_length_wins() {
    let kv = meta(&[("general.context_length", Some(8192)), ("llama.context_length", Some(4096))]);
    assert_eq!(model_dims("llama", &kv).context_length, Some(8192));
    // A general key that holds no number hides the architecture's key.
    let kv = meta(&[("general.context_length", None), ("llama.context_length", Some(4096))]);
    assert_eq!(model_dims("llama", &kv).context_length, None);
    assert_eq!(model_dims("llama", &[]).context_length, None);
}

#[test]
fn server_controls_follow_state_and_paths() {
    let linux = Platform { os: TargetOs::Linux, aarch64: false };
    let windows = Platform { os: TargetOs::Windows, aarch64: false };
    assert_eq!(server_control(&ServerState::Idle, Some("llama-server"), true, linux), ServerControl::Start(true));
    assert_eq!(server_control(&ServerState::Idle, Some("llama-server"), false, linux), ServerControl::Start(false));
    assert_eq!(server_control(&ServerState::Idle, Some("llama-server"), true, windows), ServerControl::Start(false));
    assert_eq!(server_control(&ServerState::Idle, Some("llama-server.exe"), true, windows), ServerControl::Start(true));
    assert_eq!(server_control(&ServerState::Idle, None, true, linux), ServerControl::Start(false));
    let failed = ServerState::Error(ErrorInfo::Key(MessageKey::ErrPortConflict));
    assert_eq!(server_control(&failed, Some("llama-server"), true, linux), ServerControl::Start(true));
    assert_eq!(server_control(&ServerState::Running, None, false, linux), ServerControl::Stop);
    assert_eq!(server_control(&ServerState::Starting, Some("llama-server"), true, linux), ServerControl::Busy);
    assert_eq!(server_control(&ServerState::Stopping, Some("llama-server"), true, linux), ServerControl::Busy);
    assert_eq!(rpc_control(&ServerState::Idle, Some("rpc-server"), linux), ServerControl::Start(true));
    assert_eq!(rpc_control(&ServerState::Idle, Some("ggml-rpc-server.exe"), windows), ServerControl::Start(true));
    assert_eq!(rpc_control(&ServerState::Idle, Some("llama-server"), linux), ServerControl::Start(false));
    assert_eq!(rpc_control(&ServerState::Running, None, linux), ServerControl::Stop);
}

fn pairs(v: &[(&str, bool)]) -> Vec<(String, bool)> {
    v.iter().map(|(n, b)| (n.to_string(), *b)).collect()
}

#[test]
fn saving_mcp_config_keeps_switches_and_drops_removed() {
    let servers = pairs(&[("search", true), ("files", true), ("broken", false), ("fresh", true)]);
    let states = pairs(&[("files", false), ("gone", true), ("search", true)]);
    let merged = merge_server_states(&servers, &states);
    assert_eq!(merged, pairs(&[("search", true), ("files", false), ("broken", false), ("fresh", true)]));
    assert!(merge_server_states(&[], &states).is_empty());
}

#[test]
fn counting_enabled_mcp_servers() {
    let names: Vec<String> = ["a", "b", "c", "d"].iter().map(|s| s.to_string()).collect();
    let states = pairs(&[("a", true), ("b", false), ("d", true), ("x", true)]);
    assert_eq!(count_enabled(&names, &states), 2);
    assert_eq!(count_enabled(&names, &[]), 0);
}

fn strings(v: &[&str]) -> Vec<String> {
    v.iter().map(|s| s.to_string()).collect()
}

#[test]
fn model_list_sorts_like_paths() {
    let keys = strings(&["m/b/x.gguf", "m/a/y.gguf", "m/a/x.gguf", "m/a-b/z.gguf", "m/Z.gguf", "m/é.gguf"]);
    let ord = sort_order(&keys);
    let mut expected: Vec<usize> = (0..keys.len()).collect();
    expected.sort_by(|a, b| keys[*a].cmp(&keys[*b]));
    assert_eq!(ord, expected);
    assert_eq!(ord, vec![4, 3, 2, 1, 0, 5]);
    assert!(sort_order(&[]).is_empty());
}

#[test]
fn model_list_sort_is_stable() {
    let keys = strings(&["b", "a", "b", "a"]);
    assert_eq!(sort_order(&keys), vec![1, 3, 0, 2]);
}

#[test]
fn model_list_folder_titles() {
    let folders = strings(&["/m", "/m/a", "/m/a", "/m", "/m/b", "/m/a"]);
    assert_eq!(folder_headers("/m", &folders), vec![false, true, false, false, true, true]);
    assert!(folder_headers("/m", &[]).is_empty());
}

#[test]
fn startup_applies_first_named_preset() {
    let names = strings(&["fast", "long", "fast"]);
    assert_eq!(startup_preset(Some("fast"), &names), (Some(0), true));
    assert_eq!(startup_preset(Some("long"), &names), (Some(1), true));
    assert_eq!(startup_preset(Some("gone"), &names), (None, true));
    assert_eq!(startup_preset(None, &names), (None, false));
}

#[test]
fn update_offered_unless_tags_match() {
    assert!(!llama_update_available("version: 6000 (b10549, abc)", "b10549"));
    assert!(llama_update_available("version: 6000 (b10549, abc)", "b10600"));
    assert!(llama_update_available(UNKNOWN_VERSION, "b10600"));
}

#[test]
fn saving_a_preset_trims_and_replaces() {
    let names = strings(&["fast", "long", "fast"]);
    assert_eq!(preset_save_target("  fast ", &names), (PresetSave::Replace(0), "fast".to_string()));
    assert_eq!(preset_save_target("long", &names), (PresetSave::Replace(1), "long".to_string()));
    assert_eq!(preset_save_target(" new one ", &names), (PresetSave::Append, "new one".to_string()));
    assert_eq!(preset_save_target("   ", &names), (PresetSave::Ignore, String::new()));
    assert_eq!(preset_rename("  renamed\t"), Some("renamed".to_string()));
    assert_eq!(preset_rename(" \n "), None);
}

#[test]
fn rpc_device_listing() {
    let out = "ggml: loading\nAvailable devices:\n  Device 0: NVIDIA RTX 4090 (24 GB)\r\n  Device 1: CPU\nbye\n";
    assert_eq!(
        device_list(out, "ignored Device"),
        Some("Device 0: NVIDIA RTX 4090 (24 GB)\nDevice 1: CPU".to_string())
    );
    assert_eq!(device_list("", "  Device 0: Vulkan0\n"), Some("Device 0: Vulkan0".to_string()));
    assert_eq!(device_list("no devices\n", "Device on stderr"), None);
    assert_eq!(device_list("", ""), None);
}

#[test]
fn log_view_text_marks_levels() {
    let entries = vec![
        LogEntry { text: "ready".to_string(), level: LogLevel::Info },
        LogEntry { text: "slow".to_string(), level: LogLevel::Warn },
        LogEntry { text: "failed".to_string(), level: LogLevel::Error },
    ];
    assert_eq!(log_text(&entries), "ready\n⚠ slow\n✖ failed\n");
    assert_eq!(log_text(&[]), "");
}

#[test]
fn first_shard_from_pattern_results() {
    let cap = Some(Some(("model".to_string(), "00003".to_string(), ".gguf".to_string())));
    assert_eq!(first_shard_name_from("model.part2of00003.gguf", true, cap.clone()), "model.part1of00003.gguf");
    assert_eq!(first_shard_name_from("model.part2of00003.gguf", false, cap), "model.part2of00003.gguf");
    assert_eq!(first_shard_name_from("x.gguf", true, Some(None)), "x.gguf");
    assert_eq!(first_shard_name_from("x.gguf", true, None), "x.gguf");
}

#[test]
fn json_documents_parse_to_values() {
    let doc = parse_json(r#"{"b": [1, "x", null], "a": true}"#).expect("valid JSON");
    match json_field(&doc, "a") {
        Some(Json::Bool(true)) => {}
        _ => panic!("a should be true"),
    }
    match json_field(&doc, "b") {
        Some(Json::Array(items)) => {
            assert_eq!(items.len(), 3);
            assert!(matches!(&items[0], Json::Number(n) if n == "1"));
            assert!(matches!(&items[1], Json::Str(s) if s == "x"));
            assert!(matches!(&items[2], Json::Null));
        }
        _ => panic!("b should be an array"),
    }
    assert!(json_field(&doc, "c").is_none());
    assert!(parse_json("{not json").is_none());
}

#[test]
fn mcp_servers_from_configuration_text() {
    let text = r#"{"mcpServers": {
        "search": {"command": "npx", "args": ["-y", 3, "srv"]},
        "remote": {"url": "http://x"},
        "odd": "text"
    }}"#;
    let servers = parse_mcp_servers(text);
    let got: Vec<(String, String, Vec<String>)> =
        servers.into_iter().map(|s| (s.name, s.command, s.args)).collect();
    assert_eq!(
        got,
        vec![
            ("odd".to_string(), String::new(), vec![]),
            ("remote".to_string(), String::new(), vec![]),
            ("search".to_string(), "npx".to_string(), vec!["-y".to_string(), "srv".to_string()]),
        ]
    );
    assert!(parse_mcp_servers("not json").is_empty());
    assert!(parse_mcp_servers(r#"{"servers": {}}"#).is_empty());
    let doc = parse_json(text).unwrap();
    assert_eq!(mcp_servers_of(&doc).len(), 3);
    assert_eq!(
        mcp_switch_defaults(&doc),
        Some(vec![("odd".to_string(), false), ("remote".to_string(), false), ("search".to_string(), true)])
    );
    assert_eq!(mcp_switch_defaults(&parse_json("[]").unwrap()), None);
}

fn obj(text: &str) -> Vec<(String, Json)> {
    match parse_json(text) {
        Some(Json::Object(m)) => m,
        _ => panic!("not an object"),
    }
}

#[test]
fn presets_pick_and_overlay_fields() {
    let keys = strings(&["context", "top_k"]);
    let settings = obj(r#"{"context": 4, "model_path": "/m", "top_k": 40}"#);
    let picked = pick_members(settings, &keys);
    let names: Vec<String> = picked.iter().map(|(k, _)| k.clone()).collect();
    assert_eq!(names, strings(&["context", "top_k"]));
    let settings = obj(r#"{"context": 4, "model_path": "/m", "top_k": 40}"#);
    let preset = obj(r#"{"context": 8, "model_path": "/other", "name": "p"}"#);
    let merged = apply_members(settings, preset, &keys);
    let expected = obj(r#"{"context": 8, "model_path": "/m", "top_k": 40}"#);
    assert_eq!(merged.len(), 3);
    for ((k1, v1), (k2, v2)) in merged.iter().zip(expected.iter()) {
        assert_eq!(k1, k2);
        assert!(json_eq(v1, v2));
    }
    assert_eq!(preset_keys().len(), 90);
    assert!(param_keys().contains(&"chat_template".to_string()));
    assert!(!param_keys().contains(&"model_path".to_string()));
}

#[test]
fn system_proxy_needs_an_address_ureq_accepts() {
    let reg = |server: &str| format!("ProxyEnable REG_DWORD 0x1\nProxyServer REG_SZ {}\n", server);
    assert!(system_proxy_from_registry(&reg("127.0.0.1:7890")).is_some());
    assert!(system_proxy_from_registry(&reg("socks5://user:pw@h:1080")).is_some());
    assert!(system_proxy_from_registry(&reg("ftp://h:21")).is_none());
    assert!(system_proxy_from_registry(&reg("socks5://user@h:1080")).is_none());
    assert!(system_proxy_from_registry("ProxyEnable REG_DWORD 0x0\n").is_none());
}

#[test]
fn preset_read_back_after_applying() {
    let keys = strings(&["context", "top_k", "temperature"]);
    let settings = obj(r#"{"context": 4, "model_path": "/m", "temperature": "0.8", "top_k": 40}"#);
    let preset = obj(r#"{"context": 16, "name": "p", "temperature": "0.2", "top_k": 20}"#);
    let back = pick_members(apply_members(settings, preset, &keys), &keys);
    let expected = obj(r#"{"context": 16, "temperature": "0.2", "top_k": 20}"#);
    assert_eq!(back.len(), expected.len());
    for ((k1, v1), (k2, v2)) in back.iter().zip(expected.iter()) {
        assert_eq!(k1, k2);
        assert!(json_eq(v1, v2));
    }
}
