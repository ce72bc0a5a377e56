use llama_cpp_launcher::dirtree::DirNode;
use llama_cpp_launcher::platform::{Platform, TargetOs};
use llama_cpp_launcher::settings::{
    default_batch_size, default_cache_type, default_context, default_download_variant,
    default_host, default_kv_offload, default_parallel_slots, default_port, default_reasoning_budget,
    default_rpc_endpoints, default_rpc_port, default_rpc_threads, default_split_mode, default_top_k,
    exe_filename, from_raw_or_k, is_rpc_binary_name, is_server_binary_name, GpuLayersJson,
    GpuLayersMode, SettingsManager,
};

const LINUX_X64: Platform = Platform { os: TargetOs::Linux, aarch64: false };
const WINDOWS_X64: Platform = Platform { os: TargetOs::Windows, aarch64: false };

fn dir(name: &str, path: &str, files: &[&str], dirs: Vec<DirNode>) -> DirNode {
    DirNode {
        name: name.to_string(),
        path: path.to_string(),
        files: files.iter().map(|f| f.to_string()).collect(),
        dirs,
    }
}

fn manager() -> SettingsManager {
    SettingsManager::new("/tmp/t".to_string())
}

fn found_exe(found: Option<&DirNode>, exe: &str) -> Option<String> {
    found.map(|d| format!("{}/{}", d.path, exe))
}

#[test]
fn find_exe_recursive_dir_itself() {
    let exe = exe_filename("llama-server", LINUX_X64);
    let tree = dir("t", "/tmp/t", &[exe.as_str()], vec![]);
    let found = manager().find_exe_recursive(&tree, "llama-server", "llama", LINUX_X64);
    assert_eq!(found_exe(found, &exe), Some("/tmp/t/llama-server".to_string()));
}

#[test]
fn find_exe_recursive_keyword_subdir_one_level() {
    let exe = exe_filename("llama-server", LINUX_X64);
    let sub = dir("llama-b10549", "/tmp/t/llama-b10549", &[exe.as_str()], vec![]);
    let tree = dir("t", "/tmp/t", &[], vec![sub]);
    let found = manager().find_exe_recursive(&tree, "llama-server", "llama", LINUX_X64);
    assert_eq!(found_exe(found, &exe), Some("/tmp/t/llama-b10549/llama-server".to_string()));
}

#[test]
fn find_exe_recursive_deep_path_depth_3() {
    let exe = exe_filename("llama-server", LINUX_X64);
    let bin = dir("bin", "/tmp/t/llama/llama-b10549/bin", &[exe.as_str()], vec![]);
    let b = dir("llama-b10549", "/tmp/t/llama/llama-b10549", &[], vec![bin]);
    let l = dir("llama", "/tmp/t/llama", &[], vec![b]);
    let tree = dir("t", "/tmp/t", &[], vec![l]);
    let found = manager().find_exe_recursive(&tree, "llama-server", "llama", LINUX_X64);
    assert_eq!(
        found_exe(found, &exe),
        Some("/tmp/t/llama/llama-b10549/bin/llama-server".to_string())
    );
}

#[test]
fn find_exe_recursive_depth_5_not_found() {
    let exe = exe_filename("llama-server", LINUX_X64);
    let e = dir("e", "/tmp/t/a/b/c/d/e", &[exe.as_str()], vec![]);
    let d = dir("d", "/tmp/t/a/b/c/d", &[], vec![e]);
    let c = dir("c", "/tmp/t/a/b/c", &[], vec![d]);
    let b = dir("b", "/tmp/t/a/b", &[], vec![c]);
    let a = dir("a", "/tmp/t/a", &[], vec![b]);
    let tree = dir("t", "/tmp/t", &[], vec![a]);
    assert!(!tree.dirs[0].dirs[0].dirs[0].dirs[0].dirs[0].files.is_empty());
    let found = manager().find_exe_recursive(&tree, "llama-server", "llama", LINUX_X64);
    assert_eq!(found_exe(found, &exe), None);
}

#[test]
fn find_exe_recursive_prefers_keyword_dirs() {
    let exe = exe_filename("llama-server", WINDOWS_X64);
    assert_eq!(exe, "llama-server.exe");
    let other = dir("aaa", "C:/x/aaa", &[exe.as_str()], vec![]);
    let llama = dir("LLaMA-b1", "C:/x/LLaMA-b1", &[exe.as_str()], vec![]);
    let tree = dir("x", "C:/x", &[], vec![other, llama]);
    let found = manager().find_exe_recursive(&tree, "llama-server", "llama", WINDOWS_X64);
    assert_eq!(found.map(|d| d.path.clone()), Some("C:/x/LLaMA-b1".to_string()));
}

#[test]
fn auto_detect_uses_config_dir() {
    let sub = dir("llama", "/tmp/t/llama", &["ggml-rpc-server", "llama-server"], vec![]);
    let tree = dir("t", "/tmp/t", &[], vec![sub]);
    let m = manager();
    assert_eq!(m.config_dir(), "/tmp/t");
    assert_eq!(
        m.auto_detect_server_path(&tree, LINUX_X64).map(|d| d.path.clone()),
        Some("/tmp/t/llama".to_string())
    );
    assert_eq!(
        m.auto_detect_rpc_path(&tree, LINUX_X64).map(|d| d.path.clone()),
        Some("/tmp/t/llama".to_string())
    );
}

#[test]
fn binary_names_by_platform() {
    assert!(is_server_binary_name("llama-server", LINUX_X64));
    assert!(!is_server_binary_name("llama-server", WINDOWS_X64));
    assert!(is_server_binary_name("llama-server.exe", WINDOWS_X64));
    assert!(is_rpc_binary_name("ggml-rpc-server.exe", WINDOWS_X64));
    assert!(!is_rpc_binary_name("llama-server", LINUX_X64));
}

#[test]
fn gpu_layers_forms() {
    assert_eq!(GpuLayersMode::Auto.to_arg(), "auto");
    assert_eq!(GpuLayersMode::All.to_arg(), "256");
    assert_eq!(GpuLayersMode::Manual(33).to_arg(), "33");
    assert_eq!(GpuLayersMode::from_text(" AUTO "), Some(GpuLayersMode::Auto));
    assert_eq!(GpuLayersMode::from_text("999"), Some(GpuLayersMode::All));
    assert_eq!(GpuLayersMode::from_text("all"), Some(GpuLayersMode::All));
    assert_eq!(GpuLayersMode::from_text("12"), Some(GpuLayersMode::Manual(12)));
    assert_eq!(GpuLayersMode::from_text("twelve"), None);
    assert_eq!(
        GpuLayersMode::from_json(&GpuLayersJson::Number(7)),
        Some(GpuLayersMode::Manual(7))
    );
}

#[test]
fn gpu_layers_round_trip_values() {
    for m in [GpuLayersMode::Auto, GpuLayersMode::All, GpuLayersMode::Manual(0), GpuLayersMode::Manual(48)] {
        let stored = m.to_json();
        assert_eq!(GpuLayersMode::from_json(&stored), Some(m));
    }
}

#[test]
fn app_settings_defaults() {
    assert_eq!(default_download_variant(), "cpu");
    assert_eq!(default_context(), 4);
    assert_eq!(default_batch_size(), 2);
    assert_eq!(default_reasoning_budget(), -1);
}

#[test]
fn stored_sizes_are_at_least_one() {
    assert_eq!(from_raw_or_k(0), 1);
    assert_eq!(from_raw_or_k(4), 4);
    assert_eq!(from_raw_or_k(4096), 4096);
}

#[test]
fn find_exe_recursive_orders_whole_level() {
    let exe = exe_filename("llama-server", LINUX_X64);
    let ax = dir("x", "/tmp/t/a/x", &[exe.as_str()], vec![]);
    let bl = dir("Llama", "/tmp/t/b/Llama", &[exe.as_str()], vec![]);
    let a = dir("a", "/tmp/t/a", &[], vec![ax]);
    let b = dir("b", "/tmp/t/b", &[], vec![bl]);
    let tree = dir("t", "/tmp/t", &[], vec![b, a]);
    let found = manager().find_exe_recursive(&tree, "llama-server", "llama", LINUX_X64);
    assert_eq!(found_exe(found, &exe), Some("/tmp/t/b/Llama/llama-server".to_string()));
    // Without keyword holders the level goes by lower-cased name.
    let c = dir("C", "/tmp/t/z/C", &[exe.as_str()], vec![]);
    let d = dir("d", "/tmp/t/a/d", &[exe.as_str()], vec![]);
    let z = dir("z", "/tmp/t/z", &[], vec![c]);
    let a2 = dir("a", "/tmp/t/a", &[], vec![d]);
    let tree2 = dir("t", "/tmp/t", &[], vec![a2, z]);
    let found2 = manager().find_exe_recursive(&tree2, "llama-server", "llama", LINUX_X64);
    assert_eq!(found_exe(found2, &exe), Some("/tmp/t/z/C/llama-server".to_string()));
}

#[test]
fn server_and_rpc_defaults() {
    assert_eq!(default_host(), "127.0.0.1");
    assert_eq!(default_port(), 8080);
    assert_eq!(default_parallel_slots(), 1);
    assert_eq!(default_top_k(), 40);
    assert!(default_kv_offload());
    assert_eq!(default_cache_type(), "f16");
    assert_eq!(default_split_mode(), "none");
    assert_eq!(default_rpc_port(), 50052);
    assert_eq!(default_rpc_threads(), 8);
    assert_eq!(default_rpc_endpoints(), "127.0.0.1:50052");
}
