pub mod text;
pub mod base64url;
pub mod updater;
pub mod pattern;
pub mod engine;
pub mod platform;
pub mod downloader;
pub mod dirtree;
pub mod settings;
pub mod theme;
pub mod geo;
pub mod proxy;
pub mod version;
pub mod model_files;
pub mod model_meta;
pub mod file_list;
pub mod json;
pub mod mcp;
pub mod share;
pub mod share_decl;
pub mod presets;
pub mod systemd;
pub mod launch;
pub mod panels;
pub mod autostart;
pub mod appearance;
