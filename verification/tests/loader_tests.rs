use downloader_core::archive::{
    classify_archive, entry_progress, zip_entry_action, ArchiveError, ArchiveKind, EntryAction,
};
use downloader_core::loader::{
    binary_candidate, binary_not_found_message, BinaryProbe, ManifestSource, ProbeAnswer,
};
use downloader_core::manifest::{PluginFunction, PluginManifest};
use downloader_core::registry::PluginRegistry;
use downloader_core::settings::{games_from_downloads, AppState};
use downloader_core::store::{DownloadInfo, DownloadStatus, ExtractionStatus};

fn manifest(id: &str, plugin_type: &str) -> PluginManifest {
    PluginManifest {
        id: id.to_string(),
        name: format!("{} provider", id),
        version: "1.0".to_string(),
        supported_hosts: vec!["host.example".to_string()],
        entry_point: "run.py".to_string(),
        plugin_type: plugin_type.to_string(),
        plugin_function: PluginFunction::Download,
        external_binary: false,
        language: None,
        successful: None,
        install_instruction: None,
        supported_actions: vec!["download".to_string()],
        category: String::new(),
        download_url: None,
        binary_path: None,
    }
}

#[test]
fn valid_manifests_register_despite_invalid_siblings() {
    let mut reg = PluginRegistry::new();
    let items = vec![
        ManifestSource::Parsed { manifest: manifest("good1", "native"), probe: ProbeAnswer::NotNeeded },
        ManifestSource::Unparsable {
            file_name: "broken.json".to_string(),
            detail: "expected value at line 1".to_string(),
        },
        ManifestSource::Parsed {
            manifest: manifest("good2", "script"),
            probe: ProbeAnswer::ScriptPresent,
        },
        ManifestSource::Parsed {
            manifest: manifest("bad2", "script"),
            probe: ProbeAnswer::ScriptMissing { script_path: "plugins/run.py".to_string() },
        },
    ];
    let err = reg.load_plugins(items);
    assert_eq!(reg.get_all_plugins().len(), 2);
    assert!(reg.get_plugin("good1").is_some());
    assert!(reg.get_plugin("good2").is_some());
    assert!(reg.get_plugin("bad2").is_none());
    let msg = err.unwrap();
    assert!(msg.contains("Failed to parse plugin JSON broken.json: expected value at line 1"));
    assert!(msg.contains("Script file plugins/run.py not found for plugin bad2"));
}

#[test]
fn loading_only_valid_manifests_yields_no_error() {
    let mut reg = PluginRegistry::new();
    let items = vec![
        ManifestSource::Parsed { manifest: manifest("a", "native"), probe: ProbeAnswer::NotNeeded },
        ManifestSource::Parsed { manifest: manifest("b", "command"), probe: ProbeAnswer::NotNeeded },
    ];
    assert!(reg.load_plugins(items).is_none());
    assert_eq!(reg.get_all_plugins().len(), 2);
}

#[test]
fn empty_category_defaults_to_optional() {
    let mut reg = PluginRegistry::new();
    let items = vec![ManifestSource::Parsed {
        manifest: manifest("a", "native"),
        probe: ProbeAnswer::NotNeeded,
    }];
    assert!(reg.load_plugins(items).is_none());
    assert_eq!(reg.get_plugin("a").unwrap().category, "optional");
}

#[test]
fn resolved_binary_path_is_attached() {
    let mut reg = PluginRegistry::new();
    let mut m = manifest("ext", "script");
    m.external_binary = true;
    m.entry_point = "prov --fast".to_string();
    let items = vec![ManifestSource::Parsed {
        manifest: m,
        probe: ProbeAnswer::BinaryResolved { path: "/usr/bin/prov".to_string() },
    }];
    assert!(reg.load_plugins(items).is_none());
    assert_eq!(reg.get_plugin("ext").unwrap().binary_path.as_deref(), Some("/usr/bin/prov"));
}

#[test]
fn missing_binary_reports_program_and_instruction() {
    let mut reg = PluginRegistry::new();
    let mut m = manifest("ext", "script");
    m.external_binary = true;
    m.entry_point = "prov --fast".to_string();
    m.install_instruction = Some("install prov from example.org".to_string());
    let items = vec![ManifestSource::Parsed {
        manifest: m,
        probe: ProbeAnswer::BinaryMissing { detail: "not on PATH".to_string() },
    }];
    let msg = reg.load_plugins(items).unwrap();
    assert_eq!(
        msg,
        "External binary 'prov' not found for plugin ext: not on PATH\nInstallation instruction: install prov from example.org"
    );
    assert_eq!(reg.get_all_plugins().len(), 0);
}

#[test]
fn binary_candidates_follow_the_language() {
    let r = binary_candidate("tool", "rust", "/home/u");
    assert!(matches!(r, Ok(BinaryProbe::Path { path }) if path == "/home/u/.cargo/bin/tool"));
    let g = binary_candidate("tool", "GO", "/home/u");
    assert!(matches!(g, Ok(BinaryProbe::Path { path }) if path == "/home/u/go/bin/tool"));
    let b = binary_candidate("tool", "bash", "/home/u");
    assert!(matches!(b, Ok(BinaryProbe::Path { path }) if path == "tool"));
    let n = binary_candidate("tool", "node", "/home/u");
    assert!(matches!(
        n,
        Ok(BinaryProbe::GlobPattern { pattern }) if pattern == "/home/u/.nvm/versions/node/*/bin/tool"
    ));
    let e = binary_candidate("tool", "perl", "/home/u");
    assert!(matches!(e, Err(msg) if msg == "Unsupported language: perl. "));
}

#[test]
fn not_found_message_carries_the_hint() {
    assert_eq!(
        binary_not_found_message("x", Some("go")),
        "Binary 'x' not found in go or PATH. Please install Go (https://golang.org/doc/install)"
    );
    assert_eq!(
        binary_not_found_message("x", None),
        "Binary 'x' not found in any language-specific directory or PATH. "
    );
}

#[test]
fn extensions_dispatch_to_backends() {
    assert_eq!(classify_archive("a.zip").unwrap(), ArchiveKind::Zip);
    assert_eq!(classify_archive("a.7z").unwrap(), ArchiveKind::SevenZ);
    assert_eq!(classify_archive("/p/Q.RAR").unwrap(), ArchiveKind::Rar);
    assert!(matches!(
        classify_archive("a.exe"),
        Err(ArchiveError::UnsupportedFormat(m)) if m == "Unsupported file format: exe"
    ));
    assert!(matches!(
        classify_archive("noext"),
        Err(ArchiveError::UnsupportedFormat(m)) if m == "No file extension"
    ));
}

#[test]
fn archive_error_messages() {
    assert_eq!(ArchiveError::Io("broken pipe".to_string()).message(), "IO error: broken pipe");
    assert_eq!(
        ArchiveError::InvalidArchive("bad header".to_string()).message(),
        "Invalid archive: bad header"
    );
}

#[test]
fn zip_entries_and_progress() {
    assert_eq!(zip_entry_action("dir/sub/"), EntryAction::MakeDirectory);
    assert_eq!(zip_entry_action("dir/file.txt"), EntryAction::WriteFile);
    assert_eq!(entry_progress(1, 3), 33);
    assert_eq!(entry_progress(2, 3), 66);
    assert_eq!(entry_progress(3, 3), 100);
    assert_eq!(entry_progress(0, 5), 0);
}

#[test]
fn settings_normalization_fills_defaults() {
    let mut s = AppState::default();
    s.normalize(Some("/data/downloads".to_string()));
    assert_eq!(s.games.as_ref().unwrap().len(), 0);
    assert_eq!(s.download_dir.as_deref(), Some("/data/downloads"));

    let mut t = AppState {
        token: Some("token-abc123".to_string()),
        download_dir: Some("/chosen".to_string()),
        games: None,
    };
    t.normalize(Some("/data/downloads".to_string()));
    assert_eq!(t.download_dir.as_deref(), Some("/chosen"));
    assert_eq!(t.token.as_deref(), Some("token-abc123"));
}

#[test]
fn downloads_become_saved_games() {
    let d = DownloadInfo {
        id: "g1".to_string(),
        filename: "game.zip".to_string(),
        url: "https://host/game.zip".to_string(),
        progress: 100,
        status: DownloadStatus::Completed,
        path: Some("/d/game.zip".to_string()),
        error: None,
        provider: None,
        downloaded_at: Some("2024-01-01T00:00:00+00:00".to_string()),
        extracted: true,
        extracted_path: Some("/d/game".to_string()),
        extraction_status: ExtractionStatus::Completed,
        extraction_progress: 100,
    };
    let games = games_from_downloads(&vec![d]);
    assert_eq!(games.len(), 1);
    assert_eq!(games[0].id, "g1");
    assert_eq!(games[0].path, "/d/game.zip");
    assert!(games[0].extracted);
    assert!(games[0].launch_config.is_none());
}
