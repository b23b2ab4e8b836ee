use download_engine::engine::{Download, Phase};
use download_engine::errors::DownloadError;

#[test]
fn head_size_is_used_when_positive() {
    let mut d = Download::start();
    assert_eq!(d.phase, Phase::Probing);
    d.on_head_response(true, Some(1234));
    d.on_get_response(200, Some(999), 0).unwrap();
    assert_eq!(d.phase, Phase::Transferring);
    assert_eq!(d.total_size, 1234);
}

#[test]
fn get_size_is_used_when_head_yields_none() {
    let mut d = Download::start();
    d.on_head_response(true, None);
    d.on_get_response(200, Some(500), 0).unwrap();
    assert_eq!(d.phase, Phase::Transferring);
    assert_eq!(d.total_size, 500);
}

#[test]
fn failed_head_yields_no_size() {
    let mut d = Download::start();
    d.on_head_response(false, Some(777));
    d.on_get_response(200, Some(500), 0).unwrap();
    assert_eq!(d.total_size, 500);
}

#[test]
fn total_is_zero_when_neither_response_declares_a_length() {
    let mut d = Download::start();
    d.on_head_response(true, None);
    d.on_get_response(204, None, 0).unwrap();
    assert_eq!(d.total_size, 0);
}

#[test]
fn non_success_get_fails_with_its_status() {
    let mut d = Download::start();
    d.on_head_response(true, Some(10));
    let r = d.on_get_response(404, None, 0);
    assert_eq!(r.unwrap_err(), DownloadError::HttpStatus(404));
    assert_eq!(d.phase, Phase::Failed(DownloadError::HttpStatus(404)));
}

#[test]
fn coarse_percent_is_floored_integer_percentage() {
    let mut d = Download::start();
    d.on_head_response(true, Some(200));
    d.on_get_response(200, Some(200), 0).unwrap();
    let ev = d.on_chunk(50, 10);
    assert_eq!(ev.coarse, Some(25));
    let ev = d.on_chunk(1, 20);
    assert!(ev.coarse.is_none());
    let ev = d.on_chunk(1, 30);
    assert_eq!(ev.coarse, Some(26));
}

#[test]
fn coarse_events_are_nondecreasing_and_end_at_100() {
    let mut d = Download::start();
    d.on_head_response(true, Some(10_000));
    d.on_get_response(200, None, 0).unwrap();
    let mut emitted: Vec<u64> = Vec::new();
    let mut now: u64 = 0;
    for _ in 0..100 {
        now += 10;
        if let Some(p) = d.on_chunk(100, now).coarse {
            emitted.push(p);
        }
    }
    d.on_stream_end();
    assert_eq!(d.phase, Phase::Completed);
    assert!(!emitted.is_empty());
    for w in emitted.windows(2) {
        assert!(w[0] <= w[1]);
    }
    assert_eq!(*emitted.last().unwrap(), 100);
}

#[test]
fn no_coarse_events_when_total_unknown() {
    let mut d = Download::start();
    d.on_head_response(false, None);
    d.on_get_response(200, None, 0).unwrap();
    for i in 1..=20u64 {
        let ev = d.on_chunk(1_000, i * 10);
        assert!(ev.coarse.is_none());
    }
}

#[test]
fn detailed_events_fire_on_the_wall_clock_not_on_bytes() {
    let mut d = Download::start();
    d.on_head_response(true, Some(1_000_000));
    d.on_get_response(200, None, 0).unwrap();
    let ev = d.on_chunk(1_000, 499);
    assert!(ev.detailed.is_none());
    let ev = d.on_chunk(1_000, 500);
    assert!(ev.detailed.is_some());
    // The window was consumed: the next chunk starts a new 500 ms window.
    let ev = d.on_chunk(1_000, 900);
    assert!(ev.detailed.is_none());
    let ev = d.on_chunk(1_000, 1_000);
    assert!(ev.detailed.is_some());
}

#[test]
fn steady_megabyte_per_second_reports_exact_speed_and_shrinking_eta() {
    // 10,000,000 bytes at 250,000 bytes per 250 ms: 1,000,000 bytes/s.
    let mut d = Download::start();
    d.on_head_response(true, Some(10_000_000));
    d.on_get_response(200, None, 0).unwrap();
    let mut etas: Vec<u64> = Vec::new();
    let mut last_coarse: Option<u64> = None;
    let mut now: u64 = 0;
    for _ in 0..40 {
        now += 250;
        let ev = d.on_chunk(250_000, now);
        if let Some(s) = ev.detailed {
            assert_eq!(s.bytes_per_second, 1_000_000);
            assert_eq!(s.total, 10_000_000);
            etas.push(s.eta_seconds.unwrap());
        }
        if let Some(p) = ev.coarse {
            last_coarse = Some(p);
        }
    }
    d.on_stream_end();
    assert_eq!(d.phase, Phase::Completed);
    assert_eq!(d.downloaded, 10_000_000);
    // A detailed sample fired every 500 ms.
    assert_eq!(etas.len(), 20);
    // ETA counts down to 0 as bytes arrive.
    for w in etas.windows(2) {
        assert!(w[0] >= w[1]);
    }
    assert_eq!(etas[0], 9);
    assert_eq!(*etas.last().unwrap(), 0);
    assert_eq!(last_coarse, Some(100));
}

#[test]
fn detailed_percent_is_zero_when_total_unknown() {
    let mut d = Download::start();
    d.on_head_response(true, None);
    d.on_get_response(200, None, 0).unwrap();
    let ev = d.on_chunk(5_000, 600);
    let s = ev.detailed.unwrap();
    assert_eq!(s.percent, 0);
    assert_eq!(s.total, 0);
    assert!(s.eta_seconds.is_none());
    assert_eq!(s.bytes_per_second, 5_000 * 1000 / 600);
}

#[test]
fn cancellation_signal_ends_transfer_as_cancelled() {
    let mut d = Download::start();
    d.on_head_response(true, Some(100));
    d.on_get_response(200, None, 0).unwrap();
    d.on_chunk(10, 1);
    d.on_cancel_signal();
    assert_eq!(d.phase, Phase::Cancelled);
    assert_eq!(d.downloaded, 10);
}

#[test]
fn failure_during_transfer_keeps_its_error() {
    let mut d = Download::start();
    d.on_head_response(true, Some(100));
    d.on_get_response(200, None, 0).unwrap();
    d.on_chunk(10, 1);
    d.on_failure(DownloadError::Io);
    assert_eq!(d.phase, Phase::Failed(DownloadError::Io));
}

#[test]
fn network_failure_while_probing() {
    let mut d = Download::start();
    d.on_failure(DownloadError::Transfer);
    assert_eq!(d.phase, Phase::Failed(DownloadError::Transfer));
}

#[test]
fn cancelling_one_download_does_not_disturb_another() {
    let mut a = Download::start();
    a.on_head_response(true, Some(1_000));
    a.on_get_response(200, None, 0).unwrap();
    let mut b = Download::start();
    b.on_head_response(true, Some(1_000));
    b.on_get_response(200, None, 0).unwrap();

    a.on_chunk(100, 1);
    b.on_chunk(100, 1);
    a.on_cancel_signal();
    assert_eq!(a.phase, Phase::Cancelled);

    // The other download keeps emitting and completes normally.
    let ev = b.on_chunk(900, 2);
    assert_eq!(ev.coarse, Some(100));
    b.on_stream_end();
    assert_eq!(b.phase, Phase::Completed);
}

#[test]
fn speed_saturates_instead_of_overflowing() {
    let mut d = Download::start();
    d.on_head_response(true, None);
    d.on_get_response(200, None, 0).unwrap();
    // u64::MAX bytes in half a second would be twice u64::MAX per second.
    let ev = d.on_chunk(u64::MAX, 500);
    let s = ev.detailed.unwrap();
    assert_eq!(s.bytes_per_second, u64::MAX);
}

#[test]
fn percent_of_huge_sizes_stays_exact() {
    let mut d = Download::start();
    d.on_head_response(true, Some(u64::MAX));
    d.on_get_response(200, None, 0).unwrap();
    let ev = d.on_chunk(u64::MAX / 2, 10);
    assert_eq!(ev.coarse, Some(49));
    let ev = d.on_chunk(u64::MAX - u64::MAX / 2, 20);
    assert_eq!(ev.coarse, Some(100));
}

#[test]
fn whole_run_replay_matches_per_chunk_decisions() {
    let mut a = Download::start();
    a.on_head_response(true, Some(1_000));
    a.on_get_response(200, None, 0).unwrap();
    let mut b = a;

    let counts: Vec<u64> = vec![5, 17, 17, 230, 230, 900, 1_000];
    let replayed = download_engine::engine::coarse_events_of_run(&mut a, &counts);

    let mut stepped: Vec<u64> = Vec::new();
    let mut prev: u64 = 0;
    for &c in &counts {
        if let Some(p) = b.on_chunk(c - prev, b.last_sample_ms).coarse {
            stepped.push(p);
        }
        prev = c;
    }
    assert_eq!(replayed, stepped);
    assert_eq!(replayed, vec![1, 23, 90, 100]);
    assert_eq!(a.downloaded, 1_000);
}

#[test]
fn status_success_boundaries() {
    assert!(!download_engine::status_is_success(199));
    assert!(download_engine::status_is_success(200));
    assert!(download_engine::status_is_success(299));
    assert!(!download_engine::status_is_success(300));
}
