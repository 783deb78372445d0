use provision::actions::directory::copy::DirectoryCopy;
use provision::actions::ActionError;
use provision::actions::ActionResult;
use provision::actions::Actions;
use provision::actions::ErrorKind;
use provision::dag::DagError;
use provision::engine::Engine;
use provision::engine::Status;
use provision::engine::Step;
use provision::manifest::Manifest;

fn copy(to: &str) -> Actions {
    Actions::DirectoryCopy(DirectoryCopy {
        from: String::from("mydir"),
        to: String::from(to),
    })
}

fn manifest(name: &str, depends: &[&str], actions: usize) -> Manifest {
    Manifest {
        name: Some(String::from(name)),
        actions: (0..actions).map(|i| copy(&format!("/tmp/{}/{}", name, i))).collect(),
        depends: depends.iter().map(|d| d.to_string()).collect(),
        root_dir: Some(String::from("/srv/manifests")),
        dag_index: None,
    }
}

fn succeeded() -> Result<ActionResult, ActionError> {
    Ok(ActionResult {
        message: String::from("Copied"),
    })
}

fn failed(message: &str) -> Result<ActionResult, ActionError> {
    Err(ActionError {
        message: String::from(message),
        kind: ErrorKind::IOFailure,
    })
}

/// Runs the engine to its end; `fails` names the actions that fail.
fn run(engine: &mut Engine, fails: &[(usize, usize)]) -> Vec<(usize, usize)> {
    let mut ran: Vec<(usize, usize)> = Vec::new();
    loop {
        match engine.next() {
            Step::Finished => break,
            Step::Run { manifest, action } => {
                ran.push((manifest, action));
                let outcome = if fails.contains(&(manifest, action)) {
                    failed("boom")
                } else {
                    succeeded()
                };
                assert!(engine.record(outcome));
            }
        }
        assert!(ran.len() < 1000);
    }
    ran
}

#[test]
fn a_failure_stops_its_manifest_and_skips_what_depends_on_it() {
    let mut manifests = vec![
        manifest("a", &[], 2),
        manifest("b", &["a"], 2),
        manifest("c", &["b"], 2),
    ];
    let mut engine = Engine::start(&mut manifests).unwrap();
    let ran = run(&mut engine, &[(1, 0)]);
    assert_eq!(ran, vec![(0, 0), (0, 1), (1, 0)]);
    assert!(engine.finished());
    let statuses = engine.statuses();
    assert_eq!(statuses[0], Status::Succeeded);
    assert_eq!(
        statuses[1],
        Status::Failed(ActionError {
            message: String::from("boom"),
            kind: ErrorKind::IOFailure,
        })
    );
    assert_eq!(statuses[2], Status::Skipped);
    assert!(ran.iter().all(|&(manifest, _)| manifest != 2));
    assert_eq!(engine.exit_status(), 1);
}

#[test]
fn manifests_run_in_their_order_and_actions_in_theirs() {
    let mut manifests = vec![
        manifest("c", &["b"], 1),
        manifest("b", &["a"], 2),
        manifest("a", &[], 3),
    ];
    let mut engine = Engine::start(&mut manifests).unwrap();
    assert_eq!(engine.order(), &vec![2, 1, 0]);
    assert_eq!(manifests[2].dag_index, Some(0));
    assert_eq!(manifests[1].dag_index, Some(1));
    assert_eq!(manifests[0].dag_index, Some(2));
    assert!(!engine.finished());
    assert_eq!(engine.exit_status(), 0);
    let ran = run(&mut engine, &[]);
    assert_eq!(ran, vec![(2, 0), (2, 1), (2, 2), (1, 0), (1, 1), (0, 0)]);
    assert!(engine.finished());
    assert_eq!(
        engine.statuses(),
        &vec![Status::Succeeded, Status::Succeeded, Status::Succeeded]
    );
    assert_eq!(engine.exit_status(), 0);
}

#[test]
fn manifests_that_do_not_depend_on_a_failure_still_run() {
    let mut manifests = vec![
        manifest("base", &[], 1),
        manifest("broken", &["base"], 2),
        manifest("side", &["base"], 1),
        manifest("below", &["broken", "side"], 1),
        manifest("far", &["below"], 1),
        manifest("alone", &[], 1),
    ];
    let mut engine = Engine::start(&mut manifests).unwrap();
    let ran = run(&mut engine, &[(1, 1)]);
    assert_eq!(ran, vec![(0, 0), (1, 0), (1, 1), (2, 0), (5, 0)]);
    let statuses = engine.statuses();
    assert_eq!(statuses[0], Status::Succeeded);
    assert!(matches!(statuses[1], Status::Failed(_)));
    assert_eq!(statuses[2], Status::Succeeded);
    assert_eq!(statuses[3], Status::Skipped);
    assert_eq!(statuses[4], Status::Skipped);
    assert_eq!(statuses[5], Status::Succeeded);
    assert_eq!(engine.exit_status(), 1);
}

#[test]
fn a_manifest_without_actions_succeeds() {
    let mut manifests = vec![manifest("empty", &[], 0), manifest("next", &["empty"], 1)];
    let mut engine = Engine::start(&mut manifests).unwrap();
    assert_eq!(run(&mut engine, &[]), vec![(1, 0)]);
    assert_eq!(
        engine.statuses(),
        &vec![Status::Succeeded, Status::Succeeded]
    );
}

#[test]
fn no_manifests_are_finished_at_once() {
    let mut manifests: Vec<Manifest> = vec![];
    let mut engine = Engine::start(&mut manifests).unwrap();
    assert_eq!(engine.next(), Step::Finished);
    assert!(engine.finished());
    assert_eq!(engine.exit_status(), 0);
    assert!(engine.statuses().is_empty());
}

#[test]
fn asking_again_names_the_same_action() {
    let mut manifests = vec![manifest("a", &[], 2)];
    let mut engine = Engine::start(&mut manifests).unwrap();
    let step = engine.next();
    assert_eq!(
        step,
        Step::Run {
            manifest: 0,
            action: 0
        }
    );
    assert_eq!(engine.next(), step);
    assert_eq!(engine.statuses(), &vec![Status::Pending]);
    assert!(engine.record(succeeded()));
    assert_eq!(
        engine.next(),
        Step::Run {
            manifest: 0,
            action: 1
        }
    );
}

#[test]
fn an_end_that_nobody_asked_for_is_not_taken() {
    let mut manifests = vec![manifest("a", &[], 1)];
    let mut engine = Engine::start(&mut manifests).unwrap();
    assert!(!engine.record(failed("early")));
    assert_eq!(engine.statuses(), &vec![Status::Pending]);
    assert_eq!(
        engine.next(),
        Step::Run {
            manifest: 0,
            action: 0
        }
    );
    assert!(engine.record(succeeded()));
    assert!(!engine.record(failed("twice")));
    assert_eq!(engine.next(), Step::Finished);
    assert!(!engine.record(failed("late")));
    assert_eq!(engine.statuses(), &vec![Status::Succeeded]);
    assert_eq!(engine.exit_status(), 0);
}

#[test]
fn a_plan_with_a_cycle_starts_nothing() {
    let mut manifests = vec![manifest("a", &["b"], 1), manifest("b", &["a"], 1)];
    let before = manifests.clone();
    match Engine::start(&mut manifests) {
        Err(DagError::DependencyCycle(names)) => assert_eq!(names, vec!["a", "b"]),
        Err(other) => panic!("not a cycle: {:?}", other),
        Ok(_) => panic!("a run was started"),
    }
    assert_eq!(manifests, before);
}

#[test]
fn a_plan_with_an_unknown_dependency_starts_nothing() {
    let mut manifests = vec![manifest("a", &["ghost"], 1)];
    let before = manifests.clone();
    match Engine::start(&mut manifests) {
        Err(error) => assert_eq!(error, DagError::UnknownDependency(String::from("ghost"))),
        Ok(_) => panic!("a run was started"),
    }
    assert_eq!(manifests, before);
}
