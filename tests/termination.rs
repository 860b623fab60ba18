use screenshot_app::terminate::{begin_terminate, on_event, Phase, TermAction, TermEvent, TerminationError};

#[test]
fn terminating_an_exited_process_succeeds() {
    let (p, a) = begin_terminate(Some(Some(0)), 10, 5);
    assert_eq!(a, TermAction::Resolve(Ok(Some(0))));
    let (p, a) = on_event(p, TermEvent::Tick(100));
    assert_eq!(a, TermAction::Resolve(Ok(Some(0))));
    let (_, a) = on_event(p, TermEvent::Exited(Some(7)));
    assert_eq!(a, TermAction::Resolve(Ok(Some(0))));
}

#[test]
fn graceful_exit_before_deadline() {
    let (p, a) = begin_terminate(None, 100, 50);
    assert_eq!(a, TermAction::SendGraceful);
    assert_eq!(p, Phase::Graceful { deadline: 150 });
    let (p, a) = on_event(p, TermEvent::Tick(120));
    assert_eq!(a, TermAction::WaitUntil(150));
    let (p, a) = on_event(p, TermEvent::Exited(Some(0)));
    assert_eq!(a, TermAction::Resolve(Ok(Some(0))));
    assert_eq!(p, Phase::Finished(Ok(Some(0))));
}

#[test]
fn ignored_signal_is_forced_at_deadline() {
    let (p, _) = begin_terminate(None, 100, 50);
    let (p, a) = on_event(p, TermEvent::Tick(149));
    assert_eq!(a, TermAction::WaitUntil(150));
    let (p, a) = on_event(p, TermEvent::Tick(150));
    assert_eq!(a, TermAction::ForceKill);
    assert_eq!(p, Phase::Forcing);
    let (p, a) = on_event(p, TermEvent::KillDone(Ok(None)));
    assert_eq!(a, TermAction::Resolve(Ok(None)));
    assert_eq!(p, Phase::Finished(Ok(None)));
}

#[test]
fn failed_kill_is_reported() {
    let (p, _) = begin_terminate(None, 0, 1);
    let (p, _) = on_event(p, TermEvent::Tick(5));
    let (p, a) = on_event(p, TermEvent::KillDone(Err("not permitted".to_string())));
    let failed = Err(TerminationError::KillFailed("not permitted".to_string()));
    assert_eq!(a, TermAction::Resolve(failed));
    let (_, a) = on_event(p, TermEvent::Tick(6));
    assert_eq!(a, TermAction::Resolve(Err(TerminationError::KillFailed("not permitted".to_string()))));
}

#[test]
fn deadline_saturates() {
    let (p, _) = begin_terminate(None, u64::MAX - 1, 10);
    assert_eq!(p, Phase::Graceful { deadline: u64::MAX });
    let (_, a) = on_event(p, TermEvent::Tick(u64::MAX));
    assert_eq!(a, TermAction::ForceKill);
}

#[test]
fn stray_kill_report_while_graceful_keeps_waiting() {
    let (p, _) = begin_terminate(None, 0, 30);
    let (p, a) = on_event(p, TermEvent::KillDone(Ok(Some(1))));
    assert_eq!(a, TermAction::WaitUntil(30));
    assert_eq!(p, Phase::Graceful { deadline: 30 });
}
