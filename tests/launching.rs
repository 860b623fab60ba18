use screenshot_app::launch::{classify, launch_outcome, preflight, LaunchError, OsErrorKind, OsFailure, ProcessSpec};

fn failure(kind: OsErrorKind, detail: &str) -> OsFailure {
    OsFailure { kind, detail: detail.to_string() }
}

#[test]
fn missing_executable_is_not_found_without_handle() {
    let r = launch_outcome(Err(failure(OsErrorKind::NotFound, "No such file or directory")));
    assert!(matches!(r, Err(LaunchError::NotFound)));
}

#[test]
fn permission_denied_is_its_own_kind() {
    assert_eq!(classify(failure(OsErrorKind::PermissionDenied, "denied")), LaunchError::PermissionDenied);
}

#[test]
fn other_failures_keep_their_detail() {
    assert_eq!(
        classify(failure(OsErrorKind::Other, "too many open files")),
        LaunchError::SpawnFailed("too many open files".to_string())
    );
}

#[test]
fn started_process_gets_fresh_handle() {
    let h = launch_outcome(Ok(4242)).ok().unwrap();
    assert_eq!(h.pid, 4242);
    assert!(!h.events.is_finished());
}

#[test]
fn preflight_rejects_empty_or_absent() {
    let empty = ProcessSpec::new(String::new());
    assert_eq!(preflight(&empty, true), Err(LaunchError::NotFound));
    let spec = ProcessSpec::new("/usr/bin/backend".to_string());
    assert_eq!(preflight(&spec, false), Err(LaunchError::NotFound));
    assert_eq!(preflight(&spec, true), Ok(()));
}

#[test]
fn spec_builders_keep_order() {
    let s = ProcessSpec::new("run".to_string())
        .arg("-a".to_string())
        .arg("b".to_string())
        .current_dir("/tmp".to_string())
        .env("K".to_string(), "V".to_string());
    assert_eq!(s.executable, "run");
    assert_eq!(s.args, vec!["-a".to_string(), "b".to_string()]);
    assert_eq!(s.cwd, Some("/tmp".to_string()));
    assert_eq!(s.env, vec![("K".to_string(), "V".to_string())]);
}

#[test]
fn launch_error_messages_are_distinct() {
    let a = LaunchError::NotFound.message();
    let b = LaunchError::PermissionDenied.message();
    let c = LaunchError::SpawnFailed("boom".to_string()).message();
    assert_eq!(a, "the executable could not be found");
    assert_eq!(b, "the executable may not be run (permission denied)");
    assert_eq!(c, "the process could not be started: boom");
}
