use provision::actions::operation::advance;
use provision::actions::operation::judge;
use provision::actions::package::copy_strings;
use provision::actions::package::executions;
use provision::actions::declaration::same;
use provision::actions::ErrorKind;
use provision::actions::operation::Operation;
use provision::actions::operation::Outcome;
use provision::actions::operation::Progress;
use provision::atoms::command::Exec;
use provision::atoms::command::ExecutionFailure;

fn echo() -> Exec {
    Exec {
        command: String::from("echo"),
        arguments: vec![String::from("hello")],
        ..Default::default()
    }
}

fn make(path: &str) -> Operation {
    Operation::CreateDirectory {
        path: String::from(path),
    }
}

#[test]
fn the_default_atom_is_blank() {
    let atom = Exec::default();
    assert_eq!(atom.command, "");
    assert!(atom.arguments.is_empty());
    assert!(atom.environment.is_empty());
    assert!(!atom.privileged);
    assert_eq!(atom.working_directory, None);
}

#[test]
fn a_process_that_exits_with_zero_succeeded() {
    assert_eq!(echo().check(Some(0), String::from("hello\n")), Ok(()));
}

#[test]
fn a_process_that_exits_otherwise_failed() {
    for code in [1, -1, 2, 127, i32::MAX, i32::MIN] {
        assert_eq!(
            echo().check(Some(code), String::from("boom")),
            Err(ExecutionFailure {
                command: String::from("echo"),
                exit_code: Some(code),
                output: String::from("boom"),
            })
        );
    }
}

#[test]
fn a_process_that_could_not_be_spawned_failed_without_a_status() {
    assert_eq!(
        echo().check(None, String::from("No such file or directory")),
        Err(ExecutionFailure {
            command: String::from("echo"),
            exit_code: None,
            output: String::from("No such file or directory"),
        })
    );
}

#[test]
fn outcomes_fail_by_error_or_status() {
    assert!(!Outcome::Completed.failed());
    assert!(Outcome::Errored {
        text: String::new()
    }
    .failed());
    assert!(!Outcome::Exited {
        code: 0,
        output: String::from("fine")
    }
    .failed());
    assert!(Outcome::Exited {
        code: 3,
        output: String::new()
    }
    .failed());
    assert_eq!(Outcome::Completed.status(), (Some(0), String::new()));
    assert_eq!(
        Outcome::Errored {
            text: String::from("no")
        }
        .status(),
        (None, String::from("no"))
    );
    assert_eq!(
        Outcome::Exited {
            code: 3,
            output: String::from("out")
        }
        .status(),
        (Some(3), String::from("out"))
    );
}

#[test]
fn a_failed_process_is_an_execution_failure_and_anything_else_an_io_failure() {
    let failed = Outcome::Exited {
        code: 2,
        output: String::from("bad"),
    };
    let error = judge(&Operation::Execute(echo()), &failed).unwrap();
    assert_eq!(error.kind, ErrorKind::ExecutionFailure);
    assert_eq!(error.message, "bad");
    let error = judge(&make("/tmp/x"), &failed).unwrap();
    assert_eq!(error.kind, ErrorKind::IOFailure);
    assert_eq!(error.message, "bad");
    let copy = Operation::CopyContents {
        from: String::from("a"),
        to: String::from("b"),
    };
    let refused = Outcome::Errored {
        text: String::from("denied"),
    };
    let error = judge(&copy, &refused).unwrap();
    assert_eq!(error.kind, ErrorKind::IOFailure);
    assert_eq!(error.message, "denied");
    assert_eq!(judge(&copy, &Outcome::Completed), None);
    assert_eq!(judge(&Operation::Execute(echo()), &Outcome::Completed), None);
}

#[test]
fn an_action_goes_through_its_plan_in_order() {
    let plan = vec![make("a"), make("b"), make("c")];
    assert_eq!(
        advance(plan.clone(), &vec![], "done"),
        Progress::Next(make("a"))
    );
    assert_eq!(
        advance(plan.clone(), &vec![Outcome::Completed], "done"),
        Progress::Next(make("b"))
    );
    assert_eq!(
        advance(plan.clone(), &vec![Outcome::Completed; 2], "done"),
        Progress::Next(make("c"))
    );
    match advance(plan.clone(), &vec![Outcome::Completed; 3], "done") {
        Progress::Finished(Ok(result)) => assert_eq!(result.message, "done"),
        other => panic!("not finished: {:?}", other),
    }
}

#[test]
fn an_action_without_operations_succeeds_at_once() {
    match advance(vec![], &vec![], "nothing to do") {
        Progress::Finished(Ok(result)) => assert_eq!(result.message, "nothing to do"),
        other => panic!("not finished: {:?}", other),
    }
}

#[test]
fn the_first_failure_ends_an_action() {
    let plan = vec![make("a"), Operation::Execute(echo()), make("c")];
    let done = vec![
        Outcome::Completed,
        Outcome::Exited {
            code: 1,
            output: String::from("first"),
        },
        Outcome::Errored {
            text: String::from("second"),
        },
    ];
    match advance(plan, &done, "done") {
        Progress::Finished(Err(error)) => {
            assert_eq!(error.kind, ErrorKind::ExecutionFailure);
            assert_eq!(error.message, "first");
        }
        other => panic!("not failed: {:?}", other),
    }
}

#[test]
fn outcomes_beyond_the_plan_do_not_count() {
    let done = vec![
        Outcome::Completed,
        Outcome::Errored {
            text: String::from("late"),
        },
    ];
    match advance(vec![make("a")], &done, "done") {
        Progress::Finished(Ok(result)) => assert_eq!(result.message, "done"),
        other => panic!("not finished: {:?}", other),
    }
}

#[test]
fn atoms_become_the_operations_that_run_them() {
    let atoms = vec![echo(), Exec::default()];
    assert_eq!(
        executions(atoms),
        vec![
            Operation::Execute(echo()),
            Operation::Execute(Exec::default())
        ]
    );
    assert!(executions(vec![]).is_empty());
}

#[test]
fn texts_are_compared_and_copied_as_they_are() {
    assert!(same("", ""));
    assert!(same("apt", "apt"));
    assert!(!same("apt", "apt "));
    assert!(!same("apt", "Apt"));
    let source = vec![String::from("b"), String::from("a"), String::from("b")];
    assert_eq!(copy_strings(&source), source);
    assert!(copy_strings(&vec![]).is_empty());
}
