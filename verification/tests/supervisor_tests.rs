use multiservice_discovery::definition::BoundaryNode;
use multiservice_discovery::definition::Definition;
use multiservice_discovery::supervisor::AddBoundaryNodeError;
use multiservice_discovery::supervisor::DefinitionsSupervisor;
use multiservice_discovery::supervisor::StartDefinitionError;
use multiservice_discovery::supervisor::StartMode;
use multiservice_discovery::supervisor::StopDefinitionError;
use multiservice_discovery::worker::WorkerEvent;
use multiservice_discovery::worker::WorkerPhase;

fn def(name: &str, endpoints: Vec<&str>) -> Definition {
    Definition::new(
        endpoints.into_iter().map(|e| e.to_string()).collect(),
        "/tmp/cache",
        name.to_string(),
        None,
        10,
        5,
    )
}

fn supervisor(allow_protected_deletion: bool) -> DefinitionsSupervisor {
    DefinitionsSupervisor::new("mercury".to_string(), allow_protected_deletion)
}

fn names(sup: &DefinitionsSupervisor) -> Vec<String> {
    sup.definitions.iter().map(|d| d.definition.name.clone()).collect()
}

#[test]
fn start_add_only_extends_registry_by_batch_names() {
    let mut sup = supervisor(false);
    assert!(sup.start(vec![def("mercury", vec!["http://u0"])], StartMode::AddOnly).is_ok());
    let r = sup.start(
        vec![def("alpha", vec!["http://u1"]), def("beta", vec!["http://u2"])],
        StartMode::AddOnly,
    );
    assert!(r.is_ok());
    assert_eq!(names(&sup), vec!["mercury", "alpha", "beta"]);
}

#[test]
fn start_add_only_existing_name_changes_nothing() {
    let mut sup = supervisor(false);
    assert!(sup.start(vec![def("mercury", vec!["http://u1"])], StartMode::AddOnly).is_ok());
    let before = sup.snapshot_defs();

    let r = sup.start(vec![def("mercury", vec!["http://u2"])], StartMode::AddOnly);
    let errs = r.expect_err("duplicate start must fail").errors;
    assert_eq!(errs.len(), 1);
    match &errs[0] {
        StartDefinitionError::AlreadyExists(name) => assert_eq!(name, "mercury"),
        _ => panic!("expected AlreadyExists"),
    }
    let after = sup.snapshot_defs();
    assert_eq!(after.len(), before.len());
    assert_eq!(after[0].name, before[0].name);
    assert_eq!(after[0].nns_urls, before[0].nns_urls);
    assert_eq!(after[0].registry_path, before[0].registry_path);
}

#[test]
fn start_rejects_duplicate_names_within_batch() {
    let mut sup = supervisor(true);
    let r = sup.start(
        vec![def("alpha", vec!["http://u1"]), def("alpha", vec!["http://u2"])],
        StartMode::AddOnly,
    );
    let errs = r.expect_err("duplicate batch entry must fail").errors;
    assert_eq!(errs.len(), 1);
    match &errs[0] {
        StartDefinitionError::AlreadyExists(name) => assert_eq!(name, "alpha"),
        _ => panic!("expected AlreadyExists"),
    }
    assert!(names(&sup).is_empty());
}

#[test]
fn replace_all_without_protected_name_is_refused() {
    let mut sup = supervisor(false);
    assert!(sup.start(vec![def("mercury", vec!["http://u1"])], StartMode::AddOnly).is_ok());

    let r = sup.start(vec![def("other", vec!["http://u2"])], StartMode::ReplaceAll);
    let errs = r.expect_err("dropping the protected name must fail").errors;
    assert_eq!(errs.len(), 1);
    match &errs[0] {
        StartDefinitionError::DeletionDisallowed(name) => assert_eq!(name, "mercury"),
        _ => panic!("expected DeletionDisallowed"),
    }
    assert_eq!(names(&sup), vec!["mercury"]);
}

#[test]
fn replace_all_with_protected_name_replaces_everything() {
    let mut sup = supervisor(false);
    assert!(sup
        .start(
            vec![def("mercury", vec!["http://u1"]), def("alpha", vec!["http://u2"])],
            StartMode::AddOnly
        )
        .is_ok());

    let r = sup.start(
        vec![def("mercury", vec!["http://u3"]), def("beta", vec!["http://u4"])],
        StartMode::ReplaceAll,
    );
    assert!(r.is_ok());
    assert_eq!(names(&sup), vec!["mercury", "beta"]);
    assert_eq!(sup.definitions[0].definition.nns_urls, vec!["http://u3"]);
}

#[test]
fn replace_all_may_drop_protected_name_when_allowed() {
    let mut sup = supervisor(true);
    assert!(sup.start(vec![def("mercury", vec!["http://u1"])], StartMode::AddOnly).is_ok());
    let r = sup.start(vec![def("other", vec!["http://u2"])], StartMode::ReplaceAll);
    assert!(r.is_ok());
    assert_eq!(names(&sup), vec!["other"]);
}

#[test]
fn stop_removes_names_and_is_atomic_on_error() {
    let mut sup = supervisor(false);
    assert!(sup
        .start(
            vec![
                def("mercury", vec!["http://u0"]),
                def("alpha", vec!["http://u1"]),
                def("beta", vec!["http://u2"])
            ],
            StartMode::AddOnly
        )
        .is_ok());

    // a batch with an unknown name fails whole and removes nothing
    let r = sup.stop(vec!["alpha".to_string(), "missing".to_string()]);
    let errs = r.expect_err("unknown name must fail the batch").errors;
    assert_eq!(errs.len(), 1);
    match &errs[0] {
        StopDefinitionError::DoesNotExist(name) => assert_eq!(name, "missing"),
        _ => panic!("expected DoesNotExist"),
    }
    assert_eq!(names(&sup), vec!["mercury", "alpha", "beta"]);

    // stopping the protected name is refused while deletion is disallowed
    let r = sup.stop(vec!["mercury".to_string()]);
    let errs = r.expect_err("protected name must be refused").errors;
    assert_eq!(errs.len(), 1);
    match &errs[0] {
        StopDefinitionError::DeletionDisallowed(name) => assert_eq!(name, "mercury"),
        _ => panic!("expected DeletionDisallowed"),
    }

    // a valid batch removes exactly the named definitions
    let r = sup.stop(vec!["alpha".to_string()]);
    assert!(r.is_ok());
    assert_eq!(names(&sup), vec!["mercury", "beta"]);
    assert!(!sup.contains_name(&"alpha".to_string()));
}

#[test]
fn stop_reports_every_offending_name_together() {
    let mut sup = supervisor(false);
    assert!(sup.start(vec![def("mercury", vec!["http://u0"])], StartMode::AddOnly).is_ok());
    let r = sup.stop(vec![
        "ghost1".to_string(),
        "mercury".to_string(),
        "ghost2".to_string(),
    ]);
    let errs = r.expect_err("batch must fail").errors;
    assert_eq!(errs.len(), 3);
    match &errs[0] {
        StopDefinitionError::DoesNotExist(name) => assert_eq!(name, "ghost1"),
        _ => panic!("expected DoesNotExist first"),
    }
    match &errs[1] {
        StopDefinitionError::DoesNotExist(name) => assert_eq!(name, "ghost2"),
        _ => panic!("expected DoesNotExist second"),
    }
    match &errs[2] {
        StopDefinitionError::DeletionDisallowed(name) => assert_eq!(name, "mercury"),
        _ => panic!("expected DeletionDisallowed last"),
    }
}

#[test]
fn end_empties_the_registry_unconditionally() {
    let mut sup = supervisor(false);
    assert!(sup
        .start(
            vec![def("mercury", vec!["http://u0"]), def("alpha", vec!["http://u1"])],
            StartMode::AddOnly
        )
        .is_ok());
    sup.end();
    assert!(names(&sup).is_empty());
}

#[test]
fn snapshot_reloads_field_for_field() {
    let mut sup = supervisor(false);
    let mut d = def("mercury", vec!["http://u1", "http://u2"]);
    d.public_key = Some(vec![1, 2, 3]);
    assert!(sup.start(vec![d, def("alpha", vec!["http://u3"])], StartMode::AddOnly).is_ok());
    assert!(sup
        .add_boundary_node(
            &"alpha".to_string(),
            BoundaryNode {
                name: "bn".to_string(),
                targets: vec!["[::1]:9100".to_string()],
                custom_labels: vec![("env".to_string(), "test".to_string())],
                job_type: "node_exporter".to_string(),
            },
        )
        .is_ok());

    let snapshot = sup.snapshot_defs();
    let mut reloaded = supervisor(false);
    assert!(reloaded.load_or_create_defs(Some(snapshot)).is_ok());

    assert_eq!(sup.definitions.len(), reloaded.definitions.len());
    for (a, b) in sup.definitions.iter().zip(reloaded.definitions.iter()) {
        let (da, db) = (&a.definition, &b.definition);
        assert_eq!(da.name, db.name);
        assert_eq!(da.nns_urls, db.nns_urls);
        assert_eq!(da.registry_path, db.registry_path);
        assert_eq!(da.public_key, db.public_key);
        assert_eq!(da.poll_interval, db.poll_interval);
        assert_eq!(da.registry_query_timeout, db.registry_query_timeout);
        assert_eq!(da.boundary_nodes.len(), db.boundary_nodes.len());
        for (x, y) in da.boundary_nodes.iter().zip(db.boundary_nodes.iter()) {
            assert_eq!(x.name, y.name);
            assert_eq!(x.targets, y.targets);
            assert_eq!(x.custom_labels, y.custom_labels);
            assert_eq!(x.job_type, y.job_type);
        }
    }
}

#[test]
fn load_or_create_without_snapshot_is_a_no_op() {
    let mut sup = supervisor(false);
    assert!(sup.load_or_create_defs(None).is_ok());
    assert!(names(&sup).is_empty());
}

#[test]
fn add_boundary_node_twice_fails_and_keeps_one_entry() {
    let mut sup = supervisor(false);
    assert!(sup.start(vec![def("alpha", vec!["http://u1"])], StartMode::AddOnly).is_ok());
    let bn = |addr: &str| BoundaryNode {
        name: "edge".to_string(),
        targets: vec![addr.to_string()],
        custom_labels: vec![],
        job_type: "node_exporter".to_string(),
    };
    assert!(sup.add_boundary_node(&"alpha".to_string(), bn("[::1]:9100")).is_ok());
    let r = sup.add_boundary_node(&"alpha".to_string(), bn("[::2]:9100"));
    match r.expect_err("second add under the same name must fail") {
        AddBoundaryNodeError::AlreadyExists(name) => assert_eq!(name, "edge"),
        _ => panic!("expected AlreadyExists"),
    }
    let named: Vec<_> = sup.definitions[0]
        .definition
        .boundary_nodes
        .iter()
        .filter(|b| b.name == "edge")
        .collect();
    assert_eq!(named.len(), 1);
    assert_eq!(named[0].targets, vec!["[::1]:9100"]);
}

#[test]
fn add_boundary_node_unknown_definition_is_not_found() {
    let mut sup = supervisor(false);
    let r = sup.add_boundary_node(
        &"ghost".to_string(),
        BoundaryNode {
            name: "edge".to_string(),
            targets: vec![],
            custom_labels: vec![],
            job_type: "node_exporter".to_string(),
        },
    );
    match r.expect_err("unknown definition must be not found") {
        AddBoundaryNodeError::NotFound(name) => assert_eq!(name, "ghost"),
        _ => panic!("expected NotFound"),
    }
}

#[test]
fn failing_worker_stays_registered_and_counts_failures() {
    let mut sup = supervisor(true);
    assert!(sup.start(vec![def("alpha", vec!["http://u1"])], StartMode::AddOnly).is_ok());

    let inst = &mut sup.definitions[0];
    inst.observe(WorkerEvent::Started);
    inst.observe(WorkerEvent::InitialSyncCompleted { ok: true });
    assert_eq!(inst.worker.phase, WorkerPhase::Polling);

    let n = 5;
    for _ in 0..n {
        sup.definitions[0].observe(WorkerEvent::PollCompleted { loaded: None, sync_ok: false });
    }
    assert_eq!(names(&sup), vec!["alpha"]);
    let w = &sup.definitions[0].worker;
    assert_eq!(w.phase, WorkerPhase::Polling);
    assert_eq!(w.sync_failure, n);
    assert_eq!(w.load_failure, n);
    assert_eq!(w.sync_success, 1);
    assert_eq!(w.end_events, 0);
}

#[test]
fn get_target_groups_serves_only_the_requested_job_type() {
    let mut sup = supervisor(true);
    assert!(sup.start(vec![def("alpha", vec!["http://u1"])], StartMode::AddOnly).is_ok());
    let group = |name: &str, job: &str| multiservice_discovery::definition::TargetGroup {
        name: name.to_string(),
        targets: vec![format!("[::1]:9{}", name.len())],
        labels: vec![],
        job_type: job.to_string(),
    };
    sup.definitions[0].observe(WorkerEvent::Started);
    sup.definitions[0].observe(WorkerEvent::InitialSyncCompleted { ok: true });
    sup.definitions[0].observe(WorkerEvent::PollCompleted {
        loaded: Some(vec![
            group("n1", "node_exporter"),
            group("r1", "replica"),
            group("n2", "node_exporter"),
        ]),
        sync_ok: true,
    });

    let groups = sup
        .get_target_groups(&"alpha".to_string(), &"node_exporter".to_string())
        .expect("alpha is running");
    assert_eq!(groups.len(), 2);
    assert_eq!(groups[0].name, "n1");
    assert_eq!(groups[1].name, "n2");

    let err = sup
        .get_target_groups(&"ghost".to_string(), &"replica".to_string())
        .expect_err("ghost is not running");
    assert_eq!(err.name, "ghost");
}

#[test]
fn batch_errors_render_one_bulleted_line_per_error() {
    let mut sup = supervisor(false);
    assert!(sup.start(vec![def("mercury", vec!["http://u0"])], StartMode::AddOnly).is_ok());

    let e = sup
        .start(vec![def("mercury", vec!["http://u1"])], StartMode::AddOnly)
        .expect_err("duplicate start must fail");
    assert_eq!(e.errors[0].message(), "definition mercury is already running");
    assert_eq!(e.message(), "* definition mercury is already running");

    let e = sup
        .start(vec![def("other", vec!["http://u2"])], StartMode::ReplaceAll)
        .expect_err("dropping the protected name must fail");
    assert_eq!(
        e.message(),
        "* deletion of mercury is disallowed without a replacement"
    );

    let e = sup
        .stop(vec!["ghost".to_string(), "mercury".to_string()])
        .expect_err("stop must fail");
    assert_eq!(
        e.message(),
        "* definition ghost does not exist* deletion of mercury is disallowed by configuration"
    );
}
