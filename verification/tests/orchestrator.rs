use gitload::download::{
    loop_step, resolve_targets, run_events, DownloadError, DownloadEvent, LoopDecision,
};
use gitload::progress::Process;

const LISTING: &str = r#"{"tree":[{"path":"nvim","mode":"040000"},{"path":"nvim/init.lua","size":120},{"path":"nvim/lua","mode":"040000"},{"path":"nvim/lua/set.lua","size":88},{"path":"nvim2/init.lua","size":5},{"path":"README.md","size":10}]}"#;

#[test]
fn listing_parses_to_matched_files() {
    let r = resolve_targets(LISTING, "nvim").unwrap();
    let paths: Vec<&str> = r.iter().map(|e| e.path.as_str()).collect();
    assert_eq!(paths, vec!["nvim/init.lua", "nvim/lua/set.lua"]);
    assert!(r.iter().all(|e| e.is_file));
}

#[test]
fn single_file_target_matches_itself() {
    let r = resolve_targets(LISTING, "nvim/init.lua").unwrap();
    assert_eq!(r.len(), 1);
    assert_eq!(r[0].path, "nvim/init.lua");
}

#[test]
fn missing_target_fails_fast() {
    let r = resolve_targets(LISTING, "does-not-exist");
    assert!(matches!(r, Err(DownloadError::TargetNotFound)));
}

#[test]
fn directory_only_target_is_not_found() {
    let body = r#"{"tree":[{"path":"nvim","mode":"040000"}]}"#;
    let r = resolve_targets(body, "nvim");
    assert!(matches!(r, Err(DownloadError::TargetNotFound)));
}

#[test]
fn malformed_listing_is_repository_unavailable() {
    let r = resolve_targets("404: Not Found", "nvim");
    assert!(matches!(r, Err(DownloadError::RepositoryUnavailable)));
    let r = resolve_targets(r#"{"trees":[]}"#, "nvim");
    assert!(matches!(r, Err(DownloadError::RepositoryUnavailable)));
    let r = resolve_targets(r#"{"tree":[{"size":3}]}"#, "nvim");
    assert!(matches!(r, Err(DownloadError::RepositoryUnavailable)));
}

#[test]
fn successful_run_delivers_every_snapshot() {
    let events = vec![
        DownloadEvent::Progress(Process { current: 1, all: 3 }),
        DownloadEvent::Progress(Process { current: 2, all: 3 }),
        DownloadEvent::Progress(Process { current: 3, all: 3 }),
    ];
    let (outcome, delivered) = run_events(&events);
    assert!(outcome.is_ok());
    assert_eq!(delivered.len(), 3);
    for (i, p) in delivered.iter().enumerate() {
        assert_eq!(p.current, i + 1);
        assert_eq!(p.all, 3);
    }
    assert!(delivered.last().unwrap().is_over());
}

#[test]
fn failed_fetch_aborts_job() {
    let events = vec![
        DownloadEvent::Progress(Process { current: 1, all: 3 }),
        DownloadEvent::Failed(DownloadError::TransportFailure("connection reset".to_string())),
        DownloadEvent::Progress(Process { current: 2, all: 3 }),
    ];
    let (outcome, delivered) = run_events(&events);
    assert!(matches!(outcome, Err(DownloadError::TransportFailure(_))));
    assert!(delivered.iter().all(|p| p.current != 3));
}

#[test]
fn failed_write_aborts_job() {
    let events = vec![
        DownloadEvent::Failed(DownloadError::FilesystemFailure("permission denied".to_string())),
    ];
    let (outcome, delivered) = run_events(&events);
    assert!(matches!(outcome, Err(DownloadError::FilesystemFailure(_))));
    assert!(delivered.is_empty());
}

#[test]
fn closed_channel_is_fatal() {
    let (outcome, delivered) = run_events(&Vec::new());
    assert!(matches!(outcome, Err(DownloadError::ChannelFailure)));
    assert!(delivered.is_empty());
}

#[test]
fn loop_step_decides_each_event() {
    let d = loop_step(&DownloadEvent::Progress(Process { current: 1, all: 2 }));
    assert!(matches!(d, LoopDecision::Deliver(p) if p.current == 1));
    let d = loop_step(&DownloadEvent::Progress(Process { current: 2, all: 2 }));
    assert!(matches!(d, LoopDecision::Finish(p) if p.current == 2));
    let d = loop_step(&DownloadEvent::Failed(DownloadError::TargetNotFound));
    assert!(matches!(d, LoopDecision::Abort(DownloadError::TargetNotFound)));
}

#[test]
fn errors_describe_themselves() {
    assert_eq!(
        DownloadError::RepositoryUnavailable.describe(),
        "Are you sure the repo really exists?"
    );
    assert_eq!(
        DownloadError::TargetNotFound.describe(),
        "Are you sure the target name is right?"
    );
    assert_eq!(DownloadError::TransportFailure("timed out".to_string()).describe(), "timed out");
    assert_eq!(DownloadError::FilesystemFailure("disk full".to_string()).describe(), "disk full");
}
