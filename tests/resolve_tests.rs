use infera::config::InferaConfig;
use infera::error::InferaError;
use infera::guard::TempFileGuard;
use infera::index::ScannedFile;
use infera::key::{artifact_path, token_path};
use infera::resolve::{classify_status, pause_after, Action, Event, Phase, Resolver, ResponseKind};

const URL: &str = "http://127.0.0.1:9/model.onnx";

fn config() -> InferaConfig {
    let mut c = InferaConfig::defaults("/tmp");
    c.cache_dir = "/cache".to_string();
    c
}

fn start(c: &InferaConfig) -> Resolver {
    let (mut m, a) = Resolver::start(c, URL, "run7");
    assert!(matches!(a, Action::CreateDir { ref dir } if dir == "/cache"));
    let a = m.step(Event::Done);
    match a {
        Action::Probe { artifact, token_file } => {
            assert_eq!(artifact, artifact_path("/cache", URL));
            assert_eq!(token_file, token_path("/cache", URL));
        }
        other => panic!("unexpected {:?}", other),
    }
    m
}

fn temp(attempt: u32) -> String {
    format!("{}.part-run7-{}", artifact_path("/cache", URL), attempt)
}

#[test]
fn fresh_download_is_committed() {
    let c = config();
    let mut m = start(&c);
    let a = m.step(Event::Probed { artifact_exists: false, token: Some("\"stale\"".to_string()) });
    match a {
        Action::Fetch { url, temp: t, timeout_secs, token } => {
            assert_eq!(url, URL);
            assert_eq!(t, temp(1));
            assert_eq!(timeout_secs, 30);
            assert_eq!(token, "");
        }
        other => panic!("unexpected {:?}", other),
    }
    let a = m.step(Event::Fetched { token: "\"v1\"".to_string() });
    assert!(matches!(a, Action::MeasureTemp { temp: ref t } if *t == temp(1)));
    let a = m.step(Event::Size(10));
    assert!(matches!(a, Action::ScanCache { ref dir } if dir == "/cache"));
    let a = m.step(Event::Listing { files: Vec::new(), now: 0 });
    match a {
        Action::Commit { temp: t, artifact } => {
            assert_eq!(t, temp(1));
            assert_eq!(artifact, artifact_path("/cache", URL));
        }
        other => panic!("unexpected {:?}", other),
    }
    let a = m.step(Event::Done);
    match a {
        Action::SaveToken { token_file, token } => {
            assert_eq!(token_file, token_path("/cache", URL));
            assert_eq!(token, "\"v1\"");
        }
        other => panic!("unexpected {:?}", other),
    }
    // a failure to save the token does not fail the call
    let a = m.step(Event::Failed("read-only".to_string()));
    match a {
        Action::Finish { result: Ok(p) } => assert_eq!(p, artifact_path("/cache", URL)),
        other => panic!("unexpected {:?}", other),
    }
    assert_eq!(m.phase(), Phase::Finished);
}

#[test]
fn revalidated_hit_is_not_downloaded_again() {
    let c = config();
    let mut m = start(&c);
    let a = m.step(Event::Probed { artifact_exists: true, token: Some("  \"v1\"\n".to_string()) });
    assert!(matches!(a, Action::Fetch { ref token, .. } if token == "\"v1\""));
    let a = m.step(Event::NotModified);
    assert!(matches!(a, Action::Touch { ref artifact } if *artifact == artifact_path("/cache", URL)));
    let a = m.step(Event::Done);
    match a {
        Action::Finish { result: Ok(p) } => assert_eq!(p, artifact_path("/cache", URL)),
        other => panic!("unexpected {:?}", other),
    }
}

#[test]
fn truncated_body_leaves_nothing_behind() {
    let mut c = config();
    c.http_retry_attempts = 1;
    let mut m = start(&c);
    m.step(Event::Probed { artifact_exists: false, token: None });
    let a = m.step(Event::FetchFailed(InferaError::IoError("body shorter than declared".to_string())));
    assert!(matches!(a, Action::RemoveTemp { temp: ref t } if *t == temp(1)));
    let a = m.step(Event::Done);
    match a {
        Action::Finish { result: Err(e) } => {
            assert_eq!(e, InferaError::IoError("body shorter than declared".to_string()))
        }
        other => panic!("unexpected {:?}", other),
    }
}

#[test]
fn server_errors_exhaust_the_attempts() {
    let c = config();
    let mut m = start(&c);
    let mut a = m.step(Event::Probed { artifact_exists: false, token: None });
    let mut fetches = Vec::new();
    let mut sleeps = Vec::new();
    let mut removed = Vec::new();
    let result = loop {
        a = match a {
            Action::Fetch { temp: t, .. } => {
                fetches.push(t);
                m.step(Event::FetchFailed(InferaError::HttpRequestError("500".to_string())))
            }
            Action::RemoveTemp { temp: t } => {
                removed.push(t);
                m.step(Event::Done)
            }
            Action::Sleep { millis } => {
                sleeps.push(millis);
                m.step(Event::Done)
            }
            Action::Finish { result } => break result,
            other => panic!("unexpected {:?}", other),
        };
    };
    assert_eq!(fetches, vec![temp(1), temp(2), temp(3)]);
    assert_eq!(removed, fetches);
    assert_eq!(sleeps, vec![1000, 2000]);
    assert_eq!(result, Err(InferaError::HttpRequestError("500".to_string())));
}

#[test]
fn eviction_runs_before_commit() {
    let mut c = config();
    c.cache_size_limit = 300;
    let mut m = start(&c);
    m.step(Event::Probed { artifact_exists: false, token: None });
    m.step(Event::Fetched { token: String::new() });
    m.step(Event::Size(150));
    let files = vec![
        ScannedFile { name: "c.artifact".to_string(), is_file: true, accessed_nanos: Some(3), size: 100 },
        ScannedFile { name: "a.artifact".to_string(), is_file: true, accessed_nanos: Some(1), size: 100 },
        ScannedFile { name: "b.artifact".to_string(), is_file: true, accessed_nanos: Some(2), size: 100 },
    ];
    let a = m.step(Event::Listing { files, now: 9 });
    assert!(matches!(a, Action::Delete { ref path } if path == "/cache/a.artifact"));
    let a = m.step(Event::Done);
    assert!(matches!(a, Action::Delete { ref path } if path == "/cache/b.artifact"));
    let a = m.step(Event::Done);
    assert!(matches!(a, Action::Commit { .. }));
}

#[test]
fn eviction_failure_discards_the_download() {
    let mut c = config();
    c.cache_size_limit = 100;
    let mut m = start(&c);
    m.step(Event::Probed { artifact_exists: false, token: None });
    m.step(Event::Fetched { token: String::new() });
    m.step(Event::Size(50));
    let files = vec![ScannedFile { name: "a.artifact".to_string(), is_file: true, accessed_nanos: Some(1), size: 100 }];
    let a = m.step(Event::Listing { files, now: 9 });
    assert!(matches!(a, Action::Delete { .. }));
    let a = m.step(Event::Failed("denied".to_string()));
    assert!(matches!(a, Action::RemoveTemp { temp: ref t } if *t == temp(1)));
    let a = m.step(Event::Done);
    match a {
        Action::Finish { result: Err(e) } => assert_eq!(e, InferaError::IoError("denied".to_string())),
        other => panic!("unexpected {:?}", other),
    }
}

#[test]
fn rename_failure_discards_the_download() {
    let c = config();
    let mut m = start(&c);
    m.step(Event::Probed { artifact_exists: false, token: None });
    m.step(Event::Fetched { token: String::new() });
    m.step(Event::Size(1));
    m.step(Event::Listing { files: Vec::new(), now: 0 });
    let a = m.step(Event::Failed("cross-device".to_string()));
    assert!(matches!(a, Action::RemoveTemp { .. }));
    let a = m.step(Event::Failed("gone".to_string()));
    match a {
        Action::Finish { result: Err(e) } => assert_eq!(e, InferaError::IoError("cross-device".to_string())),
        other => panic!("unexpected {:?}", other),
    }
}

#[test]
fn directory_failure_is_a_cache_dir_error() {
    let c = config();
    let (mut m, _) = Resolver::start(&c, URL, "r");
    let a = m.step(Event::Failed("permission denied".to_string()));
    match a {
        Action::Finish { result: Err(e) } => {
            assert_eq!(e, InferaError::CacheDirError("permission denied".to_string()))
        }
        other => panic!("unexpected {:?}", other),
    }
}

#[test]
fn no_attempt_allowed_fails() {
    let mut c = config();
    c.http_retry_attempts = 0;
    let mut m = start(&c);
    let a = m.step(Event::Probed { artifact_exists: false, token: None });
    assert!(matches!(a, Action::Finish { result: Err(InferaError::HttpRequestError(_)) }));
}

#[test]
fn events_out_of_turn_are_refused() {
    let c = config();
    let (m, _) = Resolver::start(&c, URL, "r");
    assert!(m.takes_event(&Event::Done));
    assert!(!m.takes_event(&Event::NotModified));
    assert!(!m.takes_event(&Event::Size(3)));
}

#[test]
fn statuses() {
    assert_eq!(classify_status(200, ""), ResponseKind::Body);
    assert_eq!(classify_status(206, "x"), ResponseKind::Body);
    assert_eq!(classify_status(304, "\"v1\""), ResponseKind::NotModified);
    assert_eq!(classify_status(304, ""), ResponseKind::Rejected);
    assert_eq!(classify_status(500, "x"), ResponseKind::Rejected);
    assert_eq!(classify_status(404, ""), ResponseKind::Rejected);
}

#[test]
fn pauses_grow_linearly() {
    assert_eq!(pause_after(1, 3, 1000), Some(1000));
    assert_eq!(pause_after(2, 3, 1000), Some(2000));
    assert_eq!(pause_after(3, 3, 1000), None);
    assert_eq!(pause_after(2, 5, u64::MAX), Some(u64::MAX));
}

#[test]
fn guard_commits() {
    let mut g = TempFileGuard::new("/c/x.part-1");
    assert_eq!(g.cleanup_path(), Some("/c/x.part-1".to_string()));
    assert!(!g.is_committed());
    g.commit();
    assert_eq!(g.cleanup_path(), None);
    assert_eq!(g.path(), "/c/x.part-1");
}
