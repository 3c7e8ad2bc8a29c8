use llamacpp_manager::download::{
    get_headers, range_refused, resume_offset, CancelFlag, DownloadProgress, DownloadRequest,
    RangeRefused, PROGRESS_STEP,
};

fn request(resume: bool) -> DownloadRequest {
    DownloadRequest {
        url: "https://example.org/file.gguf".to_string(),
        dest: "/tmp/file.gguf".to_string(),
        headers: vec![("Authorization".to_string(), "Bearer t".to_string())],
        resume,
        cancel: CancelFlag::new(),
    }
}

#[test]
fn resume_starts_at_partial_size() {
    assert_eq!(resume_offset(true, Some(1234)), 1234);
    assert_eq!(resume_offset(true, None), 0);
    assert_eq!(resume_offset(false, Some(1234)), 0);
}

#[test]
fn headers_include_range_only_when_resuming() {
    let fresh = get_headers(&request(false), 0);
    assert_eq!(
        fresh,
        vec![
            ("User-Agent".to_string(), "llamacpp-manager".to_string()),
            ("Accept".to_string(), "*/*".to_string()),
            ("Authorization".to_string(), "Bearer t".to_string()),
        ]
    );
    let resumed = get_headers(&request(true), 5000);
    assert_eq!(resumed.len(), 4);
    assert_eq!(resumed[3], ("Range".to_string(), "bytes=5000-".to_string()));
}

#[test]
fn refused_range_is_complete_only_for_equal_size() {
    assert_eq!(range_refused(100, 100), RangeRefused::Complete);
    assert_eq!(range_refused(100, 250), RangeRefused::StartOver);
}

#[test]
fn ignored_range_restarts_from_zero() {
    let p = DownloadProgress::begin(5000, 200, Some(9000));
    assert_eq!(p, DownloadProgress { downloaded: 0, last_reported: 0, total: 9000 });
    let q = DownloadProgress::begin(5000, 206, Some(9000));
    assert_eq!(q, DownloadProgress { downloaded: 5000, last_reported: 5000, total: 14000 });
    let r = DownloadProgress::begin(0, 200, None);
    assert_eq!(r.total, 0);
}

#[test]
fn progress_reported_once_per_mebibyte() {
    let mut p = DownloadProgress::begin(0, 200, Some(3 * PROGRESS_STEP));
    let mut reports = Vec::new();
    for _ in 0..48 {
        if let Some(r) = p.on_chunk(65536) {
            reports.push(r);
        }
    }
    assert_eq!(reports, vec![(PROGRESS_STEP, 3 * PROGRESS_STEP), (2 * PROGRESS_STEP, 3 * PROGRESS_STEP), (3 * PROGRESS_STEP, 3 * PROGRESS_STEP)]);
    assert_eq!(p.finish(), (3 * PROGRESS_STEP, 3 * PROGRESS_STEP));

    let mut unknown = DownloadProgress::begin(0, 200, None);
    assert_eq!(unknown.on_chunk(10), None);
    assert_eq!(unknown.finish(), (10, 10));
}

#[test]
fn cancel_flag_is_shared_by_clones() {
    let flag = CancelFlag::new();
    let other = flag.clone();
    assert!(!flag.is_cancelled());
    other.cancel();
    assert!(flag.is_cancelled());
}
