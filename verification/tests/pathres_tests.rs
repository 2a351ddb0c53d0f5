use downloader_core::decimal::u64_to_string;
use downloader_core::pathres::{
    renamed_name, resolve_target_name, DirEntry, EntryKind, PathResolveError, ResolveMode,
};
use downloader_core::urlname::effective_filename;

fn file(name: &str) -> DirEntry {
    DirEntry { name: name.to_string(), kind: EntryKind::File }
}

fn dir(name: &str) -> DirEntry {
    DirEntry { name: name.to_string(), kind: EntryKind::Directory }
}

#[test]
fn decimal_rendering_is_exact() {
    assert_eq!(u64_to_string(0), "0");
    assert_eq!(u64_to_string(7), "7");
    assert_eq!(u64_to_string(42), "42");
    assert_eq!(u64_to_string(100), "100");
    assert_eq!(u64_to_string(120345), "120345");
}

#[test]
fn renamed_inserts_counter_before_extension() {
    assert_eq!(renamed_name("movie.mp4", 1), "movie (1).mp4");
    assert_eq!(renamed_name("archive.tar", 12), "archive (12).tar");
    assert_eq!(renamed_name("noext", 2), "noext (2)");
    assert_eq!(renamed_name(".hidden", 3), ".hidden (3)");
}

#[test]
fn resolving_into_empty_directory_keeps_the_name() {
    let listing: Vec<DirEntry> = Vec::new();
    let r = resolve_target_name("movie.mp4", &listing, ResolveMode::AutoRename, true);
    assert_eq!(r.unwrap(), "movie.mp4");
}

#[test]
fn resolving_again_appends_counters() {
    let listing = vec![file("movie.mp4")];
    let r = resolve_target_name("movie.mp4", &listing, ResolveMode::AutoRename, true);
    assert_eq!(r.unwrap(), "movie (1).mp4");

    let listing2 = vec![file("movie.mp4"), file("movie (1).mp4")];
    let r2 = resolve_target_name("movie.mp4", &listing2, ResolveMode::AutoRename, true);
    assert_eq!(r2.unwrap(), "movie (2).mp4");
}

#[test]
fn exact_mode_refuses_any_existing_entry() {
    let listing = vec![file("movie.mp4")];
    let r = resolve_target_name("movie.mp4", &listing, ResolveMode::Exact, true);
    assert!(matches!(r, Err(PathResolveError::TargetExists(t)) if t == "movie.mp4"));
}

#[test]
fn directory_at_target_is_a_hard_error_even_when_renaming() {
    let listing = vec![dir("movie.mp4")];
    let r = resolve_target_name("movie.mp4", &listing, ResolveMode::AutoRename, true);
    assert!(matches!(r, Err(PathResolveError::DirectoryInTheWay(t)) if t == "movie.mp4"));

    let listing2 = vec![file("movie.mp4"), dir("movie (1).mp4")];
    let r2 = resolve_target_name("movie.mp4", &listing2, ResolveMode::AutoRename, true);
    assert!(matches!(r2, Err(PathResolveError::DirectoryInTheWay(t)) if t == "movie (1).mp4"));
}

#[test]
fn missing_parent_directory_refuses_resolution() {
    let listing: Vec<DirEntry> = Vec::new();
    let r = resolve_target_name("movie.mp4", &listing, ResolveMode::AutoRename, false);
    assert!(matches!(r, Err(PathResolveError::MissingParent)));
}

#[test]
fn requested_name_wins_when_usable() {
    assert_eq!(effective_filename("name.bin", "https://host/a/b.mp4"), "name.bin");
}

#[test]
fn empty_or_file_requests_derive_from_url() {
    assert_eq!(effective_filename("", "https://host/a/movie.mp4?dl=1"), "movie.mp4");
    assert_eq!(effective_filename("file", "https://host/dir/file"), "dir");
    assert_eq!(effective_filename("", "https://host/a/movie.mp4#frag"), "movie.mp4");
}

#[test]
fn url_without_usable_segment_falls_back_to_download() {
    assert_eq!(effective_filename("", "///file"), "download");
    assert_eq!(effective_filename("file", ""), "download");
}
