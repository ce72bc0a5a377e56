use llama_cpp_launcher::base64url::{base64url_decode, base64url_encode};
use llama_cpp_launcher::share::{
    decode_share_frame, encode_share_frame, fill_default_params, import_names,
    strip_default_params, unique_preset_name, ShareCodeError, SHARE_PREFIX,
};
use llama_cpp_launcher::json::{json_eq, parse_json, Json};
use llama_cpp_launcher::share_decl::{
    build_decl, collect_missing, format_decl_text, DeclLabels, ShareDecl, ShareMcpDecl,
};

fn tool(name: &str, command: &str, args: &[&str]) -> ShareMcpDecl {
    ShareMcpDecl {
        name: name.to_string(),
        command: command.to_string(),
        args: args.iter().map(|a| a.to_string()).collect(),
    }
}

fn names(v: &[&str]) -> Vec<String> {
    v.iter().map(|s| s.to_string()).collect()
}

#[test]
fn base64url_known_values() {
    assert_eq!(base64url_encode(b""), "");
    assert_eq!(base64url_encode(b"f"), "Zg");
    assert_eq!(base64url_encode(b"fo"), "Zm8");
    assert_eq!(base64url_encode(b"foo"), "Zm9v");
    assert_eq!(base64url_encode(&[0xfb, 0xff]), "-_8");
    assert_eq!(base64url_decode("Zm9v"), Some(b"foo".to_vec()));
    assert_eq!(base64url_decode("Zm\n9v "), Some(b"foo".to_vec()));
}

#[test]
fn base64url_round_trip_bytes() {
    let data: Vec<u8> = (0u8..=255).collect();
    let text = base64url_encode(&data);
    assert!(!text.contains('='));
    assert_eq!(base64url_decode(&text), Some(data));
}

#[test]
fn share_code_round_trip() {
    let json = br#"{"lv":1,"gen":"0.1.0","presets":[]}"#;
    let code = encode_share_frame(json).expect("compresses");
    assert!(code.starts_with(SHARE_PREFIX));
    assert_eq!(decode_share_frame(&code), Ok(json.to_vec()));
    let padded = format!("  \n{}\t ", code);
    assert_eq!(decode_share_frame(&padded), Ok(json.to_vec()));
}

#[test]
fn share_code_errors() {
    assert_eq!(decode_share_frame("   "), Err(ShareCodeError::Empty));
    assert_eq!(decode_share_frame("LCP2-abc"), Err(ShareCodeError::BadPrefix));
    assert_eq!(decode_share_frame("LCP1-abcd"), Err(ShareCodeError::BadGzip));
    let long = format!("LCP1-{}", "A".repeat(64 * 1024));
    assert_eq!(decode_share_frame(&long), Err(ShareCodeError::TooLong));
    assert_eq!(ShareCodeError::TooLong.reason(), "too-long");
    assert_eq!(ShareCodeError::BadPrefix.reason(), "bad-prefix");
    assert_eq!(ShareCodeError::Empty.reason(), "empty");
    assert_eq!(ShareCodeError::BadBase64.reason(), "bad-base64");
    assert_eq!(ShareCodeError::BadGzip.reason(), "bad-gzip");
}

#[test]
fn share_code_at_the_limit_is_read() {
    let code = format!("LCP1-{}", "A".repeat(64 * 1024 - 5));
    assert_eq!(decode_share_frame(&code), Err(ShareCodeError::BadGzip));
}

#[test]
fn unique_names_get_numbers() {
    let taken = names(&["Fast", "Fast (2)", "Slow"]);
    assert_eq!(unique_preset_name("New", &taken), "New");
    assert_eq!(unique_preset_name("Fast", &taken), "Fast (3)");
    assert_eq!(unique_preset_name("Slow", &taken), "Slow (2)");
}

#[test]
fn import_never_replaces_local_presets() {
    let existing = names(&["A", "B"]);
    let incoming = names(&["A", "A", "C", "B"]);
    let added = import_names(&incoming, &[true, true, false, true], &existing);
    assert_eq!(added, names(&["A (2)", "A (3)", "B (2)"]));
    let fewer_flags = import_names(&incoming, &[true], &existing);
    assert_eq!(fewer_flags, names(&["A (2)"]));
}

#[test]
fn declaration_from_settings() {
    let servers = vec![tool("fs", "npx", &["-y", "fs-server"]), tool("web", "uvx", &[])];
    let states = vec![("web".to_string(), false), ("fs".to_string(), true)];
    let d = build_decl(true, &servers, &states, "  ", "root ::= x", "");
    assert_eq!(d.mcp.len(), 1);
    assert_eq!(d.mcp[0].name, "fs");
    assert_eq!(d.mcp[0].args, names(&["-y", "fs-server"]));
    assert!(!d.has_template);
    assert!(d.has_grammar);
    assert!(!d.has_schema);
    assert!(d.model_required && d.server_required);
    let off = build_decl(false, &servers, &states, "{{x}}", "", "{}");
    assert!(off.mcp.is_empty());
    assert!(off.has_template && off.has_schema);
}

#[test]
fn missing_setup_is_reported() {
    let decl = ShareDecl {
        mcp: vec![tool("fs", "npx", &[])],
        has_template: false,
        has_grammar: false,
        has_schema: false,
        model_required: true,
        server_required: true,
    };
    assert!(collect_missing(&decl, "", &[tool("fs", "npx", &[])]));
    assert!(collect_missing(&decl, "/m.gguf", &[tool("fs", "", &[])]));
    assert!(collect_missing(&decl, "/m.gguf", &[tool("other", "npx", &[])]));
    assert!(!collect_missing(&decl, "/m.gguf", &[tool("fs", "/usr/bin/fs", &[])]));
    assert!(!collect_missing(&ShareDecl::default(), "/m.gguf", &[]));
}

#[test]
fn declaration_text() {
    let labels = DeclLabels {
        model: "Model".to_string(),
        model_hint: "pick a model".to_string(),
        server: "Server".to_string(),
        server_hint: "set the server".to_string(),
        mcp_title: "Tools".to_string(),
        mcp_hint: "install them".to_string(),
        template: "Template".to_string(),
        template_hint: "in params".to_string(),
        grammar: "Grammar".to_string(),
        grammar_hint: "in params".to_string(),
        schema: "Schema".to_string(),
        schema_hint: "in params".to_string(),
    };
    let decl = ShareDecl {
        mcp: vec![tool("fs", "npx", &["-y", "fs"]), tool("web", "uvx", &[])],
        has_template: true,
        has_grammar: false,
        has_schema: false,
        model_required: true,
        server_required: true,
    };
    let text = format_decl_text(&decl, &labels);
    assert_eq!(
        text,
        "◆ Model\n   pick a model\n\n◆ Server\n   set the server\n\n◆ Tools\n   • fs — npx -y fs\n   • web — uvx\n   install them\n\n◆ Template\n   in params\n\n"
    );
}

fn members(text: &str) -> Vec<(String, Json)> {
    match parse_json(text) {
        Some(Json::Object(m)) => m,
        _ => panic!("not an object"),
    }
}

fn keys(m: &[(String, Json)]) -> Vec<String> {
    m.iter().map(|(k, _)| k.clone()).collect()
}

#[test]
fn shared_parameters_leave_out_defaults() {
    let defaults = members(r#"{"context": 4, "flash_attn": "auto", "top_k": 40, "tensor_split": ""}"#);
    let params = members(r#"{"context": 8, "flash_attn": "auto", "top_k": 40, "tensor_split": "1,1", "extra": [1]}"#);
    let stripped = strip_default_params(params, &defaults);
    assert_eq!(keys(&stripped), vec!["context", "extra", "tensor_split"]);
    let filled = fill_default_params(stripped, defaults);
    assert_eq!(keys(&filled), vec!["context", "extra", "tensor_split", "flash_attn", "top_k"]);
    let expected = members(r#"{"context": 8, "extra": [1], "tensor_split": "1,1", "flash_attn": "auto", "top_k": 40}"#);
    for (k, v) in &filled {
        let found = expected.iter().find(|(e, _)| e == k).expect("key present");
        assert!(json_eq(v, &found.1));
    }
    assert!(json_eq(&Json::Array(vec![Json::Null]), &Json::Array(vec![Json::Null])));
    assert!(!json_eq(&Json::Str("1".to_string()), &Json::Number("1".to_string())));
}
