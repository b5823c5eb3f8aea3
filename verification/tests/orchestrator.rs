use file_manager::orchestrator::{JobOrchestrator, StartOutcome};

fn owned(lines: &[&str]) -> Vec<String> {
    lines.iter().map(|l| l.to_string()).collect()
}

#[test]
fn a_new_orchestrator_is_idle() {
    let orchestrator = JobOrchestrator::new();
    assert!(!orchestrator.is_busy());
    assert_eq!(orchestrator.status(), "");
    assert!(orchestrator.log().is_empty());
}

#[test]
fn a_second_start_while_a_task_is_active_is_rejected() {
    let mut orchestrator = JobOrchestrator::new();
    assert_eq!(orchestrator.start(), StartOutcome::Launched);
    assert!(orchestrator.is_busy());
    assert_eq!(orchestrator.start(), StartOutcome::AlreadyRunning);
    assert_eq!(orchestrator.status(), "Already running an operation");
    orchestrator.poll(owned(&["working"]), false);
    assert_eq!(orchestrator.start(), StartOutcome::AlreadyRunning);
    assert!(orchestrator.is_busy());
    assert_eq!(orchestrator.log(), &owned(&["working"]));
}

#[test]
fn lines_are_logged_in_the_order_of_their_emission() {
    let mut orchestrator = JobOrchestrator::new();
    orchestrator.start();
    orchestrator.poll(owned(&["one", "two"]), false);
    orchestrator.poll(owned(&[]), false);
    orchestrator.poll(owned(&["three"]), false);
    assert_eq!(orchestrator.log(), &owned(&["one", "two", "three"]));
    assert_eq!(orchestrator.status(), "three");
    assert!(orchestrator.is_busy());
}

#[test]
fn a_closed_channel_makes_the_orchestrator_idle() {
    let mut orchestrator = JobOrchestrator::new();
    orchestrator.start();
    orchestrator.poll(owned(&["last words"]), true);
    assert!(!orchestrator.is_busy());
    assert_eq!(orchestrator.log(), &owned(&["last words"]));
    assert_eq!(orchestrator.status(), "last words");
    assert_eq!(orchestrator.start(), StartOutcome::Launched);
    assert!(orchestrator.log().is_empty());
}

#[test]
fn a_poll_without_a_task_changes_nothing() {
    let mut orchestrator = JobOrchestrator::new();
    orchestrator.poll(owned(&["stray"]), true);
    assert!(!orchestrator.is_busy());
    assert!(orchestrator.log().is_empty());
    assert_eq!(orchestrator.status(), "");
}

#[test]
fn cancellation_is_noted_only_while_a_task_is_active() {
    let mut orchestrator = JobOrchestrator::new();
    assert!(!orchestrator.cancel());
    assert_eq!(orchestrator.status(), "");
    orchestrator.start();
    assert!(orchestrator.cancel());
    assert_eq!(orchestrator.status(), "Cancellation requested");
    assert!(orchestrator.is_busy());
    assert_eq!(orchestrator.start(), StartOutcome::AlreadyRunning);
    orchestrator.poll(owned(&["Canceled during overwrite"]), true);
    assert!(!orchestrator.is_busy());
    assert!(!orchestrator.cancel());
}
