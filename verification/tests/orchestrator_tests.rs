use download_engine::engine::Phase;
use download_engine::errors::DownloadError;
use download_engine::orchestrator::{begin_download, prepare_download};
use download_engine::registry::CancellationRegistry;

#[test]
fn prepare_resolves_destination_and_builds_request() {
    let p = prepare_download(
        "https://example.com/f.bin?auth_token=qtok",
        "reports/out.bin",
        None,
        Some("/home/u/Downloads"),
    )
    .unwrap();
    assert_eq!(p.request.url, "https://example.com/f.bin?auth_token=qtok");
    assert_eq!(p.request.auth_header.as_deref(), Some("qtok"));
    assert_eq!(p.destination.path, "/home/u/Downloads/reports/out.bin");
    assert_eq!(p.destination.dir_to_create.as_deref(), Some("/home/u/Downloads/reports"));
    assert_eq!(p.download.phase, Phase::Probing);
}

#[test]
fn prepare_reports_missing_downloads_dir_first() {
    let r = prepare_download("not a url", "relative.bin", None, None);
    assert_eq!(r.unwrap_err(), DownloadError::Environment);
}

#[test]
fn prepare_rejects_malformed_url_for_absolute_destination() {
    let r = prepare_download("not a url", "/abs/out.bin", None, None);
    assert_eq!(r.unwrap_err(), DownloadError::InvalidUrl);
}

#[test]
fn prepare_rejects_unusable_token() {
    let r = prepare_download(
        "https://example.com/f",
        "/abs/out.bin",
        Some("bad\u{7f}tok".to_string()),
        None,
    );
    assert_eq!(r.unwrap_err(), DownloadError::InvalidToken);
}

#[test]
fn begin_registers_the_identifier_on_success() {
    let mut reg = CancellationRegistry::new();
    let p = begin_download(
        &mut reg,
        "dl-9",
        "https://example.com/f.bin",
        "/abs/out.bin",
        None,
        None,
    )
    .unwrap();
    assert_eq!(p.download.phase, Phase::Probing);
    assert!(reg.contains("dl-9"));
    assert!(reg.cancel_download("dl-9"));
    assert!(!reg.cancel_download("dl-9"));
}

#[test]
fn begin_leaves_registry_untouched_on_failure() {
    let mut reg = CancellationRegistry::new();
    reg.add_download("other".to_string());
    let r = begin_download(&mut reg, "dl-9", "not a url", "/abs/out.bin", None, None);
    assert_eq!(r.unwrap_err(), DownloadError::InvalidUrl);
    assert!(!reg.contains("dl-9"));
    assert!(reg.contains("other"));
}

#[test]
fn cancel_while_transferring_yields_cancelled_and_deregisters() {
    let mut reg = CancellationRegistry::new();
    let mut p = begin_download(
        &mut reg,
        "dl-1",
        "https://example.com/f.bin",
        "/abs/out.bin",
        None,
        None,
    )
    .unwrap();
    p.download.on_head_response(true, Some(1_000));
    p.download.on_get_response(200, None, 0).unwrap();
    p.download.on_chunk(100, 10);

    // The caller asks for cancellation; the signal is observed at the next
    // chunk boundary.
    let found = reg.cancel_download("dl-1");
    assert!(found);
    p.download.on_cancel_signal();

    assert_eq!(p.download.phase, Phase::Cancelled);
    assert!(!reg.contains("dl-1"));
    assert!(!reg.cancel_download("dl-1"));
}
