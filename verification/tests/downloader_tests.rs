use llama_cpp_launcher::dirtree::DirNode;
use llama_cpp_launcher::downloader::{
    asset_stem, find_server_binary, first_nightly, is_nightly_tag, latest_release_url, mirror_url,
    nightly_tag_from_body, pick_asset, release_by_tag_url, Asset, DownloadState, DownloadStatus,
    DownloadVariant, Phase, normalize_download_variant, asset_fits_with, after_sources, source_step,
    SourceStep, TransferOutcome, CANCELLED, ERR_NETWORK,
};
use llama_cpp_launcher::platform::{Platform, TargetOs};

const LINUX_X64: Platform = Platform { os: TargetOs::Linux, aarch64: false };
const WINDOWS_X64: Platform = Platform { os: TargetOs::Windows, aarch64: false };
const WINDOWS_ARM64: Platform = Platform { os: TargetOs::Windows, aarch64: true };

fn asset(name: &str) -> Asset {
    Asset {
        name: name.to_string(),
        size: 1,
        browser_download_url: format!(
            "https://github.com/ggml-org/llama.cpp/releases/download/test/{}",
            name
        ),
    }
}

fn dir(name: &str, path: &str, files: &[&str], dirs: Vec<DirNode>) -> DirNode {
    DirNode {
        name: name.to_string(),
        path: path.to_string(),
        files: files.iter().map(|f| f.to_string()).collect(),
        dirs,
    }
}

#[test]
fn pick_asset_win_cpu_hit() {
    let assets = vec![
        asset("llama-b10549-bin-win-cuda-12.4-x64.zip"),
        asset("llama-b10549-bin-win-cpu-x64.zip"),
    ];
    let picked = pick_asset(&assets, &DownloadVariant::WinCpu).expect("应匹配 WinCpu 资产");
    assert_eq!(picked.name, "llama-b10549-bin-win-cpu-x64.zip");
}

#[test]
fn pick_asset_win_cuda_versions() {
    let assets = vec![
        asset("llama-b10549-bin-win-cuda-12.4-x64.zip"),
        asset("llama-b10549-bin-win-cuda-13.3-x64.zip"),
    ];
    let p124 = pick_asset(&assets, &DownloadVariant::WinCuda124).expect("应匹配 CUDA 12.4 资产");
    assert_eq!(p124.name, "llama-b10549-bin-win-cuda-12.4-x64.zip");
    let p133 = pick_asset(&assets, &DownloadVariant::WinCuda133).expect("应匹配 CUDA 13.3 资产");
    assert_eq!(p133.name, "llama-b10549-bin-win-cuda-13.3-x64.zip");
}

#[test]
fn pick_asset_win_cpu_arm64_hit() {
    let assets = vec![
        asset("llama-b10549-bin-win-cpu-x64.zip"),
        asset("llama-b10549-bin-win-cpu-arm64.zip"),
    ];
    let picked = pick_asset(&assets, &DownloadVariant::WinCpuArm64).expect("应匹配 arm64 资产");
    assert_eq!(picked.name, "llama-b10549-bin-win-cpu-arm64.zip");
    assert!(pick_asset(&[assets[1].clone()], &DownloadVariant::WinCpu).is_none());
}

#[test]
fn pick_asset_excludes_cudart() {
    let only_cudart = vec![asset("cudart-llama-b10549-bin-win-cuda-12.4-x64.zip")];
    assert!(pick_asset(&only_cudart, &DownloadVariant::WinCuda124).is_none());
    let mixed = vec![
        asset("cudart-llama-b10549-bin-win-cuda-12.4-x64.zip"),
        asset("llama-b10549-bin-win-cuda-12.4-x64.zip"),
    ];
    let picked = pick_asset(&mixed, &DownloadVariant::WinCuda124).expect("应跳过 cudart 选中官方资产");
    assert_eq!(picked.name, "llama-b10549-bin-win-cuda-12.4-x64.zip");
}

#[test]
fn pick_asset_linux_cpu_vs_vulkan() {
    let assets = vec![
        asset("llama-b10549-bin-ubuntu-vulkan-x64.tar.gz"),
        asset("llama-b10549-bin-ubuntu-x64.tar.gz"),
    ];
    let cpu = pick_asset(&assets, &DownloadVariant::LinuxCpu).expect("应匹配 Linux CPU 资产");
    assert_eq!(cpu.name, "llama-b10549-bin-ubuntu-x64.tar.gz");
    let vulkan = pick_asset(&assets, &DownloadVariant::LinuxVulkan).expect("应匹配 Vulkan 资产");
    assert_eq!(vulkan.name, "llama-b10549-bin-ubuntu-vulkan-x64.tar.gz");
}

#[test]
fn pick_asset_win_rocm_and_vulkan() {
    let assets = vec![
        asset("llama-b10549-windows-rocm-gfx1030-x64.zip"),
        asset("llama-b10549-bin-win-vulkan-x64.zip"),
        asset("llama-b10549-bin-win-cuda-13.3-x64.zip"),
    ];
    let rocm_variant = DownloadVariant::WinRocm714("gfx1030".to_string());
    let rocm = pick_asset(&assets, &rocm_variant).expect("应匹配 ROCm 7.14 资产");
    assert_eq!(rocm.name, "llama-b10549-windows-rocm-gfx1030-x64.zip");
    let vulkan = pick_asset(&assets, &DownloadVariant::WinVulkan).expect("应匹配 Win Vulkan 资产");
    assert_eq!(vulkan.name, "llama-b10549-bin-win-vulkan-x64.zip");
}

#[test]
fn from_settings_value_gpu_variants() {
    // Checked for Linux x64.
    assert_eq!(DownloadVariant::from_settings_value("cpu", LINUX_X64), DownloadVariant::LinuxCpu);
    assert_eq!(
        DownloadVariant::from_settings_value("vulkan", LINUX_X64),
        DownloadVariant::LinuxVulkan
    );
    assert_eq!(DownloadVariant::from_settings_value("gpu", LINUX_X64), DownloadVariant::LinuxVulkan);
    assert_eq!(DownloadVariant::from_settings_value("cuda133", LINUX_X64), DownloadVariant::LinuxCpu);
}

#[test]
fn from_settings_value_gpu_variants_on_windows() {
    assert_eq!(DownloadVariant::from_settings_value("cpu", WINDOWS_X64), DownloadVariant::WinCpu);
    assert_eq!(
        DownloadVariant::from_settings_value("cpu", WINDOWS_ARM64),
        DownloadVariant::WinCpuArm64
    );
    assert_eq!(
        DownloadVariant::from_settings_value("cuda124", WINDOWS_X64),
        DownloadVariant::WinCuda124
    );
    assert_eq!(
        DownloadVariant::from_settings_value("cuda133", WINDOWS_X64),
        DownloadVariant::WinCuda133
    );
    assert_eq!(
        DownloadVariant::from_settings_value("rocm714", WINDOWS_X64),
        DownloadVariant::WinRocm714("gfx103X".to_string())
    );
    assert_eq!(
        DownloadVariant::from_settings_value("vulkan", WINDOWS_X64),
        DownloadVariant::WinVulkan
    );
    assert_eq!(DownloadVariant::from_settings_value("gpu", WINDOWS_X64), DownloadVariant::WinCuda124);
}

#[test]
fn pick_asset_no_match_returns_none() {
    let assets = vec![asset("llama-b10549-bin-win-cpu-x64.zip")];
    assert!(pick_asset(&assets, &DownloadVariant::LinuxVulkan).is_none());
    assert!(pick_asset(&[], &DownloadVariant::WinCpu).is_none());
}

#[test]
fn find_server_binary_standard_deep_path() {
    let bin = dir(
        "bin",
        "/tmp/t/llama/llama-b10549-bin-win-cpu-x64/build/bin",
        &["llama-server.exe"],
        vec![],
    );
    let build = dir("build", "/tmp/t/llama/llama-b10549-bin-win-cpu-x64/build", &[], vec![bin]);
    let stem = dir(
        "llama-b10549-bin-win-cpu-x64",
        "/tmp/t/llama/llama-b10549-bin-win-cpu-x64",
        &[],
        vec![build],
    );
    let root = dir("llama", "/tmp/t/llama", &[], vec![stem]);
    let found = find_server_binary(&root, "llama-b10549-bin-win-cpu-x64", true)
        .expect("应在标准深路径找到 llama-server.exe");
    assert_eq!(
        format!("{}/{}", found.path, "llama-server.exe"),
        "/tmp/t/llama/llama-b10549-bin-win-cpu-x64/build/bin/llama-server.exe"
    );
}

#[test]
fn find_server_binary_empty_dir_returns_none() {
    let root = dir("llama", "/tmp/t/llama", &[], vec![]);
    assert!(find_server_binary(&root, "llama-b10549-bin-win-cpu-x64", true).is_none());
}

#[test]
fn find_server_binary_searches_other_layouts() {
    let inner = dir("bin", "/x/llama/pkg/bin", &["llama-server"], vec![]);
    let pkg = dir("pkg", "/x/llama/pkg", &["README.md"], vec![inner]);
    let root = dir("llama", "/x/llama", &[], vec![pkg]);
    let found = find_server_binary(&root, "llama-b1-bin-ubuntu-x64", false).expect("found");
    assert_eq!(found.path, "/x/llama/pkg/bin");
    assert!(find_server_binary(&root, "llama-b1-bin-ubuntu-x64", true).is_none());
}

#[test]
fn test_win_rocm714_asset_name() {
    let variant = DownloadVariant::WinRocm714("gfx103X".to_string());
    let asset_name = variant.asset_name();
    assert!(asset_name.contains("llama-.*-windows-rocm-gfx103X-x64\\.zip"));
}

#[test]
fn test_from_settings_value_rocm714() {
    // `rocm714` has a build on Windows only.
    let variant = DownloadVariant::from_settings_value("rocm714", WINDOWS_X64);
    match variant {
        DownloadVariant::WinRocm714(gpu_target) => {
            assert_eq!(gpu_target, "gfx103X");
        }
        _ => panic!("Expected WinRocm714 variant"),
    }
}

#[test]
fn test_pick_asset_rocm714() {
    let assets = vec![
        Asset {
            name: "llama-b1313-windows-rocm-gfx103X-x64.zip".to_string(),
            size: 1000,
            browser_download_url: "https://example.com/llama-b1313-windows-rocm-gfx103X-x64.zip"
                .to_string(),
        },
        Asset {
            name: "llama-b1313-windows-rocm-gfx110X-x64.zip".to_string(),
            size: 1000,
            browser_download_url: "https://example.com/llama-b1313-windows-rocm-gfx110X-x64.zip"
                .to_string(),
        },
    ];
    let variant = DownloadVariant::WinRocm714("gfx103X".to_string());
    let picked = pick_asset(&assets, &variant);
    assert!(picked.is_some());
    assert_eq!(picked.unwrap().name, "llama-b1313-windows-rocm-gfx103X-x64.zip");
}

#[test]
fn variant_names_and_extensions() {
    assert_eq!(DownloadVariant::LinuxCpu.extension(), ".tar.gz");
    assert_eq!(DownloadVariant::WinCpu.extension(), ".zip");
    assert!(DownloadVariant::WinRocm714("gfx103X".to_string()).is_rocm_lemonade());
    assert!(!DownloadVariant::WinVulkan.is_rocm_lemonade());
}

#[test]
fn release_addresses() {
    assert_eq!(
        latest_release_url(&DownloadVariant::WinCpu),
        "https://api.github.com/repos/ggml-org/llama.cpp/releases/latest"
    );
    let by_tag = release_by_tag_url("b1234", false);
    assert!(by_tag.ends_with("/releases/tags/b1234"));
    let official = "https://api.github.com/repos/ggml-org/llama.cpp/releases/latest";
    assert_eq!(
        mirror_url(official),
        "https://gh-proxy.com/repos/ggml-org/llama.cpp/releases/latest"
    );
    assert_eq!(mirror_url("https://example.com/x"), "https://example.com/x");
}

#[test]
fn nightly_tags() {
    assert!(is_nightly_tag("b10549"));
    assert!(!is_nightly_tag("v1.2.3"));
    assert!(!is_nightly_tag("b"));
    let tags = vec!["v1.0".to_string(), "b77".to_string(), "b78".to_string()];
    assert_eq!(first_nightly(&tags), Some(1));
    assert_eq!(nightly_tag_from_body("  b10549\n"), Some("b10549".to_string()));
}

#[test]
fn archive_stem() {
    assert_eq!(asset_stem("llama-b1-bin-win-cpu-x64.zip"), "llama-b1-bin-win-cpu-x64");
    assert_eq!(asset_stem("llama-b1-bin-ubuntu-x64.tar.gz"), "llama-b1-bin-ubuntu-x64");
}

#[test]
fn download_status_transitions() {
    let mut st = DownloadStatus::default();
    assert_eq!(st.state, DownloadState::Idle);
    assert!(st.begin());
    assert!(st.is_busy());
    assert!(!st.begin());
    st.set_running(Phase::Downloading, 10, Some(100));
    st.record_progress(50);
    assert_eq!(st.done, 50);
    st.finish(Ok("/x/llama-server".to_string()), false);
    assert_eq!(st.state, DownloadState::Success("/x/llama-server".to_string()));
    let mut cancelled = DownloadStatus::default();
    cancelled.begin();
    cancelled.finish(Err("boom".to_string()), true);
    assert_eq!(cancelled.state, DownloadState::Idle);
    let mut failed = DownloadStatus::default();
    failed.begin();
    failed.finish(Err("boom".to_string()), false);
    assert_eq!(failed.state, DownloadState::Error("boom".to_string()));
}

#[test]
fn old_gpu_setting_becomes_platform_build() {
    let linux = Platform { os: TargetOs::Linux, aarch64: false };
    let windows = Platform { os: TargetOs::Windows, aarch64: false };
    assert_eq!(normalize_download_variant("gpu", linux), "vulkan");
    assert_eq!(normalize_download_variant("gpu", windows), "cuda124");
    assert_eq!(normalize_download_variant("cpu", linux), "cpu");
    assert_eq!(normalize_download_variant("rocm714", windows), "rocm714");
}

#[test]
fn asset_fit_given_regex_answer() {
    let rocm = "llama-.*-windows-rocm-gfx110X-x64\\.zip";
    let name = "llama-b1-bin-win-rocm-gfx110X-x64.zip";
    assert!(asset_fits_with(name, rocm, ".zip", Some(true)));
    assert!(!asset_fits_with(name, rocm, ".zip", Some(false)));
    assert!(!asset_fits_with(name, rocm, ".zip", None));
    assert!(asset_fits_with("llama-b1-bin-win-cpu-x64.zip", "bin-win-cpu-x64", ".zip", None));
    assert!(!asset_fits_with("cudart-llama-bin-win-cuda-12.4-x64.zip", "cuda-12.4", ".zip", None));
    assert!(!asset_fits_with("llama-b1-bin-win-cpu-x64.tar.gz", "bin-win-cpu-x64", ".zip", None));
}

#[test]
fn source_steps_and_end_of_sources() {
    assert_eq!(source_step(10, TransferOutcome::Completed(10)), SourceStep::Accept);
    assert_eq!(
        source_step(10, TransferOutcome::Completed(7)),
        SourceStep::TryNext("incomplete download: expected 10 bytes, got 7".to_string())
    );
    assert_eq!(
        source_step(10, TransferOutcome::Failed("timed out".to_string())),
        SourceStep::TryNext("timed out".to_string())
    );
    assert_eq!(source_step(10, TransferOutcome::Cancelled), SourceStep::Cancel);
    assert_eq!(after_sources(true, false), Ok(()));
    assert_eq!(after_sources(false, true), Err(ERR_NETWORK.to_string()));
    assert_eq!(after_sources(true, true), Err(CANCELLED.to_string()));
}
