use download_engine::errors::DownloadError;
use download_engine::path::{is_absolute, resolve};

#[test]
fn absolute_path_is_returned_unchanged() {
    let r = resolve("/var/data/out.bin", Some("/home/u/Downloads")).unwrap();
    assert_eq!(r.path, "/var/data/out.bin");
    assert!(r.dir_to_create.is_none());
}

#[test]
fn relative_path_resolves_against_downloads_dir() {
    let r = resolve("reports/out.bin", Some("/home/u/Downloads")).unwrap();
    assert_eq!(r.path, "/home/u/Downloads/reports/out.bin");
    assert_eq!(r.dir_to_create.as_deref(), Some("/home/u/Downloads/reports"));
}

#[test]
fn relative_path_without_subdirectory_creates_downloads_dir_itself() {
    let r = resolve("out.bin", Some("/home/u/Downloads")).unwrap();
    assert_eq!(r.path, "/home/u/Downloads/out.bin");
    assert_eq!(r.dir_to_create.as_deref(), Some("/home/u/Downloads"));
}

#[test]
fn relative_path_with_nested_directories() {
    let r = resolve("a/b/c.bin", Some("/dl")).unwrap();
    assert_eq!(r.path, "/dl/a/b/c.bin");
    assert_eq!(r.dir_to_create.as_deref(), Some("/dl/a/b"));
}

#[test]
fn relative_path_without_downloads_dir_is_environment_error() {
    let r = resolve("reports/out.bin", None);
    assert_eq!(r.unwrap_err(), DownloadError::Environment);
}

#[test]
fn absolute_path_needs_no_downloads_dir() {
    let r = resolve("/tmp/out.bin", None).unwrap();
    assert_eq!(r.path, "/tmp/out.bin");
    assert!(r.dir_to_create.is_none());
}

#[test]
fn resolved_relative_path_is_absolute() {
    let r = resolve("x/y.bin", Some("/home/u/Downloads")).unwrap();
    assert!(is_absolute(&r.path));
}

#[test]
fn non_ascii_relative_path_resolves_by_characters() {
    let r = resolve("datos/aéreo.bin", Some("/home/ü/Downloads")).unwrap();
    assert_eq!(r.path, "/home/ü/Downloads/datos/aéreo.bin");
    assert_eq!(r.dir_to_create.as_deref(), Some("/home/ü/Downloads/datos"));
}

#[test]
fn is_absolute_checks_leading_separator() {
    assert!(is_absolute("/a"));
    assert!(is_absolute("/"));
    assert!(!is_absolute("a/b"));
    assert!(!is_absolute(""));
}

#[test]
fn empty_relative_path_resolves_to_downloads_dir_entry() {
    let r = resolve("", Some("/dl")).unwrap();
    assert_eq!(r.path, "/dl/");
    assert_eq!(r.dir_to_create.as_deref(), Some("/dl"));
}
