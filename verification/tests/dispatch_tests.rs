use downloader_core::ansi::strip_ansi_codes;
use downloader_core::dispatch::{
    first_token_exec, judge_command_outcome, judge_script_outcome, plan_dispatch, replace_all,
    url_host, validate_download_url, DispatchPlan, DownloadError,
};
use downloader_core::manifest::{PluginFunction, PluginManifest};
use downloader_core::protocol::build_stdin_document;

fn base_manifest() -> PluginManifest {
    PluginManifest {
        id: "prov".to_string(),
        name: "Provider".to_string(),
        version: "1.0".to_string(),
        supported_hosts: vec!["*.example.com".to_string()],
        entry_point: "fetch.py --fast".to_string(),
        plugin_type: "script".to_string(),
        plugin_function: PluginFunction::Download,
        external_binary: false,
        language: None,
        successful: None,
        install_instruction: None,
        supported_actions: vec!["download".to_string()],
        category: "optional".to_string(),
        download_url: None,
        binary_path: None,
    }
}

#[test]
fn stdin_document_is_framed_exactly() {
    let doc = build_stdin_document("download", "https://h/x", "/tmp/out.bin", "id1", None);
    assert_eq!(
        doc,
        "{\"action\":\"download\",\"url\":\"https://h/x\",\"file_path\":\"/tmp/out.bin\",\"download_id\":\"id1\",\"options\":{}}"
    );
}

#[test]
fn stdin_document_escapes_strings() {
    let doc = build_stdin_document("download", "https://h/a\"b\\c", "/tmp/x\ny", "id", Some("{\"k\":1}"));
    assert_eq!(
        doc,
        "{\"action\":\"download\",\"url\":\"https://h/a\\\"b\\\\c\",\"file_path\":\"/tmp/x\\ny\",\"download_id\":\"id\",\"options\":{\"k\":1}}"
    );
}

#[test]
fn url_host_extracts_the_authority() {
    assert_eq!(url_host("https://cdn.example.com/a/b?x=1").as_deref(), Some("cdn.example.com"));
    assert_eq!(url_host("ftp://host"), Some("host".to_string()));
    assert_eq!(url_host("nourl"), None);
}

#[test]
fn url_validation_requires_scheme_and_host() {
    assert!(validate_download_url("https://example.com/f").is_ok());
    assert!(matches!(validate_download_url("notaurl"), Err(DownloadError::InvalidUrl(_))));
    assert!(matches!(validate_download_url("https:///path"), Err(DownloadError::InvalidUrl(_))));
    assert!(matches!(validate_download_url("://host"), Err(DownloadError::InvalidUrl(_))));
}

#[test]
fn command_plan_substitutes_and_tokenizes() {
    let mut m = base_manifest();
    m.plugin_type = "command".to_string();
    m.entry_point = "mytool -o \"{{output}}\" {{download_url}}".to_string();
    let plan = plan_dispatch(
        &m,
        "download",
        "https://example.com/f.bin",
        "/tmp/my file.bin",
        "id1",
        "plugins",
        None,
    )
    .unwrap();
    match plan {
        DispatchPlan::Command { program, args } => {
            assert_eq!(program, "mytool");
            assert_eq!(
                args,
                vec![
                    "-o".to_string(),
                    "/tmp/my file.bin".to_string(),
                    "https://example.com/f.bin".to_string()
                ]
            );
        },
        _ => panic!("expected a command plan"),
    }
}

#[test]
fn script_plan_uses_interpreter_table() {
    let m = base_manifest();
    let plan =
        plan_dispatch(&m, "download", "https://example.com/f", "/t/f", "id1", "plugins", None)
            .unwrap();
    match plan {
        DispatchPlan::Script { program, args, stdin_doc } => {
            assert_eq!(program, "python");
            assert_eq!(args[0], "plugins/fetch.py");
            assert_eq!(args[1], "--fast");
            assert!(stdin_doc.contains("\"download_id\":\"id1\""));
        },
        _ => panic!("expected a script plan"),
    }
}

#[test]
fn script_plan_prefers_the_language_hint() {
    let mut m = base_manifest();
    m.language = Some("node".to_string());
    let plan =
        plan_dispatch(&m, "download", "https://example.com/f", "/t/f", "id1", "plugins", None)
            .unwrap();
    assert!(matches!(plan, DispatchPlan::Script { program, .. } if program == "node"));
}

#[test]
fn script_without_interpreter_is_a_typed_error() {
    let mut m = base_manifest();
    m.entry_point = "fetch.lua".to_string();
    let r = plan_dispatch(&m, "download", "https://example.com/f", "/t/f", "id1", "plugins", None);
    assert!(matches!(r, Err(DownloadError::UnsupportedProvider(msg)) if msg.contains("prov")));
}

#[test]
fn external_binary_plan_uses_the_resolved_path() {
    let mut m = base_manifest();
    m.external_binary = true;
    m.entry_point = "prov --fast".to_string();
    m.binary_path = Some("/usr/local/bin/prov".to_string());
    let plan =
        plan_dispatch(&m, "download", "https://example.com/f", "/t/f", "id1", "plugins", None)
            .unwrap();
    match plan {
        DispatchPlan::Script { program, args, .. } => {
            assert_eq!(program, "/usr/local/bin/prov");
            assert_eq!(args, vec!["--fast".to_string()]);
        },
        _ => panic!("expected a script plan"),
    }

    m.binary_path = None;
    let r = plan_dispatch(&m, "download", "https://example.com/f", "/t/f", "id1", "plugins", None);
    assert!(matches!(r, Err(DownloadError::DownloadFailed(msg)) if msg == "Missing binary path"));
}

#[test]
fn native_and_unknown_strategies() {
    let mut m = base_manifest();
    m.plugin_type = "native".to_string();
    let plan =
        plan_dispatch(&m, "download", "https://example.com/f", "/t/f", "id1", "plugins", None)
            .unwrap();
    assert!(matches!(plan, DispatchPlan::Native { provider_id } if provider_id == "prov"));

    m.plugin_type = "weird".to_string();
    let r = plan_dispatch(&m, "download", "https://example.com/f", "/t/f", "id1", "plugins", None);
    assert!(
        matches!(r, Err(DownloadError::UnsupportedProvider(msg)) if msg == "Unsupported plugin type: weird")
    );
}

#[test]
fn invalid_url_refuses_dispatch() {
    let m = base_manifest();
    let r = plan_dispatch(&m, "download", "no-host", "/t/f", "id1", "plugins", None);
    assert!(
        matches!(r, Err(DownloadError::InvalidUrl(msg)) if msg == "Invalid or hostless URL: no-host")
    );
}

#[test]
fn command_outcome_needs_exit_zero_and_the_file() {
    assert_eq!(judge_command_outcome("/t/f", true, true).unwrap(), "/t/f");
    assert!(matches!(
        judge_command_outcome("/t/f", false, true),
        Err(DownloadError::DownloadFailed(m)) if m == "Command exited with a non-zero status"
    ));
    assert!(matches!(
        judge_command_outcome("/t/f", true, false),
        Err(DownloadError::DownloadFailed(m)) if m == "File not found at path: /t/f"
    ));
}

#[test]
fn file_on_disk_beats_any_output() {
    let r = judge_script_outcome("/t/f.bin", true, "", None, "/d/f.bin", false);
    assert_eq!(r.unwrap(), "/t/f.bin");
    let r2 = judge_script_outcome(
        "/t/f.bin",
        true,
        "{\"status\":\"failed\",\"error\":\"boom\"}",
        None,
        "/d/f.bin",
        false,
    );
    assert_eq!(r2.unwrap(), "/t/f.bin");
}

#[test]
fn success_marker_checks_the_derived_file() {
    let r = judge_script_outcome("/t/f", false, "all done: OK", Some("done"), "/d/f.bin", true);
    assert_eq!(r.unwrap(), "/d/f.bin");
    let r2 = judge_script_outcome("/t/f", false, "all done: OK", Some("done"), "/d/f.bin", false);
    assert!(matches!(
        r2,
        Err(DownloadError::DownloadFailed(m))
            if m == "Success marker found but expected file is missing: /d/f.bin"
    ));
}

#[test]
fn json_protocol_fallback() {
    let ok = judge_script_outcome(
        "/t/f",
        false,
        "{\"status\":\"success\",\"path\":\"/d/out.bin\"}",
        None,
        "/d/f",
        false,
    );
    assert_eq!(ok.unwrap(), "/d/out.bin");

    let empty = judge_script_outcome("/t/f", false, "", None, "/d/f", false);
    assert!(matches!(
        empty,
        Err(DownloadError::DownloadFailed(m)) if m == "Plugin returned empty output"
    ));

    let invalid = judge_script_outcome("/t/f", false, "not json at all", None, "/d/f", false);
    assert!(matches!(
        invalid,
        Err(DownloadError::DownloadFailed(m)) if m == "Invalid plugin output"
    ));

    let reported = judge_script_outcome(
        "/t/f",
        false,
        "{\"status\":\"failed\",\"error\":\"quota exceeded\"}",
        None,
        "/d/f",
        false,
    );
    assert!(matches!(
        reported,
        Err(DownloadError::DownloadFailed(m)) if m == "Plugin error: quota exceeded"
    ));

    let missing_path =
        judge_script_outcome("/t/f", false, "{\"status\":\"success\"}", None, "/d/f", false);
    assert!(matches!(
        missing_path,
        Err(DownloadError::DownloadFailed(m)) if m == "Plugin response missing path"
    ));

    let shapeless = judge_script_outcome("/t/f", false, "[1,2,3]", None, "/d/f", false);
    assert!(matches!(
        shapeless,
        Err(DownloadError::DownloadFailed(m)) if m == "Plugin response was not successful"
    ));
}

#[test]
fn ansi_control_sequences_are_stripped() {
    assert_eq!(strip_ansi_codes("\u{1B}[31mred\u{1B}[0m plain"), "red plain");
    assert_eq!(strip_ansi_codes("\u{1B}[1;32mok\u{1B}[K"), "ok");
    assert_eq!(strip_ansi_codes("no codes"), "no codes");
    assert_eq!(strip_ansi_codes("\u{1B}[ unfinished"), "\u{1B}[ unfinished");
}

#[test]
fn template_replacement_replaces_every_occurrence() {
    assert_eq!(replace_all("a {{x}} b {{x}}", "{{x}}", "v"), "a v b v");
    assert_eq!(replace_all("aaa", "aa", "b"), "ba");
    assert_eq!(first_token_exec("  prog --flag"), "prog");
    assert_eq!(first_token_exec("   "), "   ");
}
