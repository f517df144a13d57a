use multiservice_discovery::definition::Definition;
use multiservice_discovery::definition::TargetGroup;
use multiservice_discovery::running::TestDefinition;
use multiservice_discovery::running::needs_full_sync;
use multiservice_discovery::worker::WorkerEvent;
use multiservice_discovery::worker::WorkerPhase;
use multiservice_discovery::worker::WorkerState;

fn group(name: &str, job: &str) -> TargetGroup {
    TargetGroup {
        name: name.to_string(),
        targets: vec!["[::1]:9100".to_string()],
        labels: vec![("dc".to_string(), "zh1".to_string())],
        job_type: job.to_string(),
    }
}

#[test]
fn worker_starts_created_and_enters_poll_loop_on_successful_sync() {
    let mut w = WorkerState::new();
    assert_eq!(w.phase, WorkerPhase::Created);
    w.observe(WorkerEvent::Started);
    assert_eq!(w.phase, WorkerPhase::InitialSyncing);
    w.observe(WorkerEvent::InitialSyncCompleted { ok: true });
    assert_eq!(w.phase, WorkerPhase::Polling);
    assert_eq!(w.sync_success, 1);
    assert_eq!(w.end_events, 0);
}

#[test]
fn failed_initial_sync_ends_the_worker_without_polling() {
    let mut w = WorkerState::new();
    w.observe(WorkerEvent::Started);
    w.observe(WorkerEvent::InitialSyncCompleted { ok: false });
    assert_eq!(w.phase, WorkerPhase::Ended);
    assert_eq!(w.sync_failure, 1);
    assert_eq!(w.end_events, 1);

    // a worker that has exited observes nothing further
    w.observe(WorkerEvent::PollCompleted { loaded: None, sync_ok: true });
    w.observe(WorkerEvent::Cancelled);
    assert_eq!(w.phase, WorkerPhase::Ended);
    assert_eq!(w.sync_success, 0);
    assert_eq!(w.end_events, 1);
}

#[test]
fn poll_iterations_count_load_and_sync_outcomes_independently() {
    let mut w = WorkerState::new();
    w.observe(WorkerEvent::Started);
    w.observe(WorkerEvent::InitialSyncCompleted { ok: true });

    w.observe(WorkerEvent::PollCompleted {
        loaded: Some(vec![group("g1", "replica")]),
        sync_ok: false,
    });
    assert_eq!(w.load_success, 1);
    assert_eq!(w.sync_failure, 1);
    assert_eq!(w.target_groups.len(), 1);

    w.observe(WorkerEvent::PollCompleted { loaded: None, sync_ok: true });
    assert_eq!(w.load_failure, 1);
    assert_eq!(w.sync_success, 2);
    // a failed reload keeps the previously loaded groups
    assert_eq!(w.target_groups.len(), 1);
    assert_eq!(w.target_groups[0].name, "g1");
    assert_eq!(w.phase, WorkerPhase::Polling);
}

#[test]
fn cancellation_terminates_and_reports_the_end_exactly_once() {
    let mut w = WorkerState::new();
    w.observe(WorkerEvent::Started);
    w.observe(WorkerEvent::InitialSyncCompleted { ok: true });
    w.observe(WorkerEvent::Cancelled);
    assert_eq!(w.phase, WorkerPhase::Terminated);
    assert_eq!(w.end_events, 1);
    w.observe(WorkerEvent::Cancelled);
    assert_eq!(w.end_events, 1);
}

fn test_def(name: &str) -> TestDefinition {
    TestDefinition::new(Definition::new(
        vec!["http://u1".to_string()],
        "/tmp/cache",
        name.to_string(),
        None,
        10,
        5,
    ))
}

#[test]
fn sync_and_stop_uses_existing_cache_when_that_works() {
    assert!(!needs_full_sync(true, true));
    let mut td = test_def("alpha");
    td.sync_and_stop(true, true, false, Some(vec![group("g1", "replica")]));
    let w = &td.running_def.worker;
    assert_eq!(w.sync_success, 1);
    assert_eq!(w.sync_failure, 0);
    assert_eq!(w.target_groups.len(), 1);
}

#[test]
fn sync_and_stop_falls_back_to_full_sync_when_cheap_variant_fails() {
    assert!(needs_full_sync(true, false));
    let mut td = test_def("alpha");
    td.sync_and_stop(true, false, true, None);
    let w = &td.running_def.worker;
    assert_eq!(w.sync_failure, 1);
    assert_eq!(w.sync_success, 1);
}

#[test]
fn sync_and_stop_without_cheap_variant_counts_only_the_full_sync() {
    assert!(needs_full_sync(false, true));
    let mut td = test_def("alpha");
    td.sync_and_stop(false, false, false, None);
    let w = &td.running_def.worker;
    assert_eq!(w.sync_failure, 1);
    assert_eq!(w.sync_success, 0);
}

#[test]
fn get_target_groups_filters_by_job_type() {
    let mut td = test_def("alpha");
    td.sync_and_stop(
        false,
        false,
        true,
        Some(vec![group("g1", "replica"), group("g2", "orchestrator")]),
    );
    let groups = td.running_def.get_target_groups(&"orchestrator".to_string());
    assert_eq!(groups.len(), 1);
    assert_eq!(groups[0].name, "g2");
    assert_eq!(groups[0].targets, vec!["[::1]:9100"]);
    assert_eq!(groups[0].labels, vec![("dc".to_string(), "zh1".to_string())]);
    let none = td.running_def.get_target_groups(&"unknown".to_string());
    assert!(none.is_empty());
}
