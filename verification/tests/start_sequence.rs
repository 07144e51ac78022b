use herald_mcserver::mcserver::instance::{local_rcon, InstanceState, ProcessInfo, StartAction, StartError, StartEvent};
use herald_mcserver::mcserver::process::ServerStatus;

fn info(pid: u32) -> ProcessInfo {
    ProcessInfo { pid, mc_version: "1.21.4".to_string(), started_at: 100, work_dir: "/srv/mc".to_string() }
}

fn spawned(pid: u32) -> StartEvent {
    StartEvent::Spawned { process: info(pid), rcon: local_rcon(25575, "pw".to_string()) }
}

#[test]
fn start_reaches_running_after_ready_line() {
    let mut s = InstanceState::new();
    s.mark_starting();
    assert!(matches!(s.start_step(spawned(42), 120), StartAction::AwaitReady));
    assert_eq!(s.status(), ServerStatus::Starting);
    assert_eq!(s.console_target(), Ok(42));
    assert!(matches!(s.start_step(StartEvent::Ready, 120), StartAction::Succeed));
    assert_eq!(s.status(), ServerStatus::Running);
    assert_eq!(s.snapshot().pid, Some(42));
}

#[test]
fn start_without_ready_line_times_out_or_fails() {
    let mut s = InstanceState::new();
    s.mark_starting();
    s.start_step(spawned(7), 120);
    match s.start_step(StartEvent::NotReady, 120) {
        StartAction::KillThenFail(StartError::ReadyTimeout(n)) => assert_eq!(n, 120),
        _ => panic!("expected a ready timeout"),
    }
    assert_eq!(s.status(), ServerStatus::Stopped);
    assert!(s.rcon_endpoint().is_none());

    let mut s = InstanceState::new();
    s.mark_starting();
    s.start_step(spawned(8), 0);
    match s.start_step(StartEvent::NotReady, 0) {
        StartAction::Fail(StartError::Spawn(m)) => assert_eq!(m, "进程退出但未到达 Ready 状态"),
        _ => panic!("expected a spawn failure"),
    }
    assert_eq!(s.status(), ServerStatus::Stopped);
}

#[test]
fn failed_spawn_and_late_process_leave_server_stopped() {
    let mut s = InstanceState::new();
    s.mark_starting();
    match s.start_step(StartEvent::SpawnFailed("no such file".to_string()), 120) {
        StartAction::Fail(StartError::Spawn(m)) => assert_eq!(m, "no such file"),
        _ => panic!("expected a spawn failure"),
    }
    assert_eq!(s.status(), ServerStatus::Stopped);

    let mut s = InstanceState::new();
    assert!(matches!(s.start_step(spawned(9), 120), StartAction::KillThenFail(StartError::Spawn(_))));
    assert_eq!(s.status(), ServerStatus::Stopped);
    assert!(s.console_target().is_err());
}
