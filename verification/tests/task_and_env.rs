use herald_mcserver::runtime::env::check_environment;
use herald_mcserver::runtime::tasks::{TaskKind, TaskOp, TaskStatus, TaskTable};

#[test]
fn lifecycle() {
    let mut t = TaskTable::new();
    // every snapshot the table hands back is one event on the bus
    let mut events = 0;
    let h = t.create(TaskKind::InstallJava, "Java 21".to_string(), 1_700_000_000);
    events += 1;
    let id = h.id.clone();
    for op in [TaskOp::MarkRunning, TaskOp::SetTotal(Some(100)), TaskOp::AddProgress(50), TaskOp::MarkDone] {
        if t.update(&id, op, 1_700_000_001).is_some() {
            events += 1;
        }
    }
    let snap = t.snapshot(&id).unwrap();
    assert_eq!(snap.status, TaskStatus::Done);
    assert_eq!(snap.downloaded, 50);
    assert!(events >= 4, "expected ≥4 events, got {events}");
}

#[test]
fn dropped_without_completion_marks_failed() {
    let mut t = TaskTable::new();
    let h = t.create(TaskKind::InstallPaper, "Paper".to_string(), 1_700_000_000);
    let id = h.id.clone();
    t.update(&id, TaskOp::MarkRunning, 1_700_000_001);
    t.update(&id, TaskOp::Dropped, 1_700_000_002);
    let snap = t.snapshot(&id).unwrap();
    assert_eq!(snap.status, TaskStatus::Failed);
    assert!(snap.error.is_some());
}

#[test]
fn check_environment_missing() {
    // a fresh data directory: no Paper jar cached, no managed runtime
    let chk = check_environment("1.21.4", Vec::new(), Vec::new());
    assert_eq!(chk.need_java_major, 21);
    assert!(chk.paper.is_none());
}
