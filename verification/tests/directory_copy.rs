use provision::actions::directory::copy::DirectoryCopy;
use provision::actions::Actions;
use provision::actions::declaration::DeclarationError;
use provision::actions::ErrorKind;
use provision::actions::declaration::Field;
use provision::actions::declaration::Kind;
use provision::actions::operation::Operation;
use provision::actions::operation::Outcome;
use provision::actions::operation::Progress;
use provision::manifest::Manifest;

fn fields_of(entry: &serde_yaml::Value) -> Vec<(String, Field)> {
    let mut fields: Vec<(String, Field)> = Vec::new();
    for (key, value) in entry.as_mapping().unwrap() {
        let key = key.as_str().unwrap().to_string();
        let field = match value {
            serde_yaml::Value::String(text) => Field::Text(text.clone()),
            serde_yaml::Value::Sequence(items) => Field::List(
                items
                    .iter()
                    .map(|item| item.as_str().unwrap().to_string())
                    .collect(),
            ),
            _ => panic!("a field is neither a text nor a list"),
        };
        fields.push((key, field));
    }
    fields
}

fn declared(yaml: &str) -> Vec<Result<Actions, DeclarationError>> {
    let document: serde_yaml::Value = serde_yaml::from_str(yaml).unwrap();
    document
        .as_sequence()
        .unwrap()
        .iter()
        .map(|entry| Actions::declare(&fields_of(entry)))
        .collect()
}

fn manifest_at(root: Option<&str>) -> Manifest {
    Manifest {
        name: Some(String::from("copy")),
        actions: vec![],
        dag_index: None,
        depends: vec![],
        root_dir: root.map(String::from),
    }
}

#[test]
fn it_can_be_deserialized() {
    let yaml = r#"
- action: directory.copy
  from: a
  to: b
"#;

    let mut actions: Vec<Actions> = declared(yaml).into_iter().map(|a| a.unwrap()).collect();

    match actions.pop() {
        Some(Actions::DirectoryCopy(dir_copy)) => {
            assert_eq!("a", dir_copy.from);
            assert_eq!("b", dir_copy.to);
        }
        _ => {
            panic!("DirectoryCopy didn't deserialize to the correct type");
        }
    };
}

#[test]
fn an_unknown_tag_is_refused() {
    let yaml = r#"
- action: directory.move
  from: a
  to: b
"#;
    let mut actions = declared(yaml);
    assert_eq!(
        actions.pop(),
        Some(Err(DeclarationError::UnknownTag(String::from(
            "directory.move"
        ))))
    );
}

#[test]
fn a_declaration_without_a_tag_is_refused() {
    let yaml = r#"
- from: a
  to: b
"#;
    let mut actions = declared(yaml);
    assert_eq!(actions.pop(), Some(Err(DeclarationError::MissingTag)));
}

#[test]
fn a_copy_needs_both_directories() {
    let without_from = declared("- action: directory.copy\n  to: b\n").pop();
    assert_eq!(
        without_from,
        Some(Err(DeclarationError::MissingField(String::from("from"))))
    );
    let without_to = declared("- action: directory.copy\n  from: a\n").pop();
    assert_eq!(
        without_to,
        Some(Err(DeclarationError::MissingField(String::from("to"))))
    );
    let neither = declared("- action: directory.copy\n").pop();
    assert_eq!(
        neither,
        Some(Err(DeclarationError::MissingField(String::from("from"))))
    );
}

#[test]
fn the_first_of_two_fields_of_one_name_counts() {
    let fields = vec![
        (String::from("action"), Field::Text(String::from("directory.copy"))),
        (String::from("from"), Field::Text(String::from("a"))),
        (String::from("to"), Field::Text(String::from("b"))),
        (String::from("from"), Field::Text(String::from("c"))),
    ];
    match Actions::declare(&fields) {
        Ok(Actions::DirectoryCopy(copy)) => {
            assert_eq!(copy.from, "a");
            assert_eq!(copy.to, "b");
        }
        other => panic!("not a directory copy: {:?}", other),
    }
}

#[test]
fn a_package_install_is_declared_by_its_fields() {
    let yaml = r#"
- action: package.install
  packages: [x, y]
  repository: ppa:example/ppa
  extra_args: [--no-recommends]
- action: package.install
  packages: [z]
- action: package.install
  repository: ppa:example/ppa
"#;
    let actions = declared(yaml);
    match &actions[0] {
        Ok(Actions::PackageInstall(install)) => {
            assert_eq!(install.variant.packages, vec!["x", "y"]);
            assert_eq!(
                install.variant.repository,
                Some(String::from("ppa:example/ppa"))
            );
            assert_eq!(install.variant.extra_args, vec!["--no-recommends"]);
        }
        other => panic!("not a package install: {:?}", other),
    }
    match &actions[1] {
        Ok(Actions::PackageInstall(install)) => {
            assert_eq!(install.variant.packages, vec!["z"]);
            assert_eq!(install.variant.repository, None);
            assert!(install.variant.extra_args.is_empty());
        }
        other => panic!("not a package install: {:?}", other),
    }
    assert_eq!(
        actions[2],
        Err(DeclarationError::MissingField(String::from("packages")))
    );
}

#[test]
fn every_kind_is_found_by_its_tag() {
    assert_eq!(Kind::DirectoryCopy.tag(), "directory.copy");
    assert_eq!(Kind::PackageInstall.tag(), "package.install");
    assert_eq!(Kind::from_tag("directory.copy"), Some(Kind::DirectoryCopy));
    assert_eq!(Kind::from_tag("package.install"), Some(Kind::PackageInstall));
    assert_eq!(Kind::from_tag("directory"), None);
    assert_eq!(Kind::from_tag(""), None);
    for kind in [Kind::DirectoryCopy, Kind::PackageInstall] {
        assert_eq!(Kind::from_tag(kind.tag()), Some(kind));
    }
    let copy = Actions::DirectoryCopy(DirectoryCopy {
        from: String::from("a"),
        to: String::from("b"),
    });
    assert_eq!(copy.kind(), Kind::DirectoryCopy);
}

#[test]
fn it_can_copy_a_directory() {
    let manifest_dir = std::path::PathBuf::from("/srv")
        .join("examples")
        .join("directory")
        .join("copy");

    let manifest = Manifest {
        name: Some(String::from("copy")),
        actions: vec![],
        dag_index: None,
        depends: vec![],
        root_dir: Some(String::from(manifest_dir.to_str().unwrap())),
    };

    let to = std::path::PathBuf::from("/tmp").join("test-case");

    let directory_copy = DirectoryCopy {
        from: String::from("mydir"),
        to: String::from(to.to_str().unwrap()),
    };

    let context = tera::Context::new();
    let mut done: Vec<Outcome> = Vec::new();

    let first = directory_copy.run(&manifest, &context, &done);
    assert_eq!(
        first,
        Progress::Next(Operation::CreateDirectory {
            path: String::from("/tmp/test-case")
        })
    );
    done.push(Outcome::Completed);

    let second = directory_copy.run(&manifest, &context, &done);
    assert_eq!(
        second,
        Progress::Next(Operation::CopyContents {
            from: String::from("/srv/examples/directory/copy/files/mydir"),
            to: String::from("/tmp/test-case"),
        })
    );
    done.push(Outcome::Completed);

    let last = directory_copy.run(&manifest, &context, &done);
    match last {
        Progress::Finished(Ok(result)) => assert_eq!(result.message, "Copied"),
        other => panic!("the copy did not succeed: {:?}", other),
    }
}

#[test]
fn copying_again_asks_for_the_same_operations() {
    let manifest = manifest_at(Some("/srv/manifests/copy"));
    let copy = DirectoryCopy {
        from: String::from("mydir"),
        to: String::from("/tmp/test-case"),
    };
    let context = tera::Context::new();
    let mut rounds: Vec<Vec<Operation>> = Vec::new();
    for _ in 0..2 {
        let mut done: Vec<Outcome> = Vec::new();
        let mut operations: Vec<Operation> = Vec::new();
        loop {
            match copy.run(&manifest, &context, &done) {
                Progress::Next(operation) => {
                    operations.push(operation);
                    done.push(Outcome::Completed);
                }
                Progress::Finished(result) => {
                    assert_eq!(result.unwrap().message, "Copied");
                    break;
                }
            }
        }
        rounds.push(operations);
    }
    assert_eq!(rounds[0].len(), 2);
    assert_eq!(rounds[0], rounds[1]);
}

#[test]
fn the_source_lies_below_the_files_of_the_manifest() {
    let copy = DirectoryCopy {
        from: String::from("mydir"),
        to: String::from("/tmp/test-case"),
    };
    let source = copy.source(&manifest_at(Some("/opt/m"))).unwrap();
    assert_eq!(source, "/opt/m/files/mydir");
    let nested = DirectoryCopy {
        from: String::from("a/b"),
        to: String::from("c"),
    };
    assert_eq!(
        nested.source(&manifest_at(Some("root"))).unwrap(),
        "root/files/a/b"
    );
}

#[test]
fn a_manifest_without_a_root_is_a_missing_root_error() {
    let copy = DirectoryCopy {
        from: String::from("mydir"),
        to: String::from("/tmp/test-case"),
    };
    let manifest = manifest_at(None);
    let error = copy.source(&manifest).unwrap_err();
    assert_eq!(error.kind, ErrorKind::MissingRoot);
    assert_eq!(error.message, "Manifest has no root directory");

    let context = tera::Context::new();
    for done in [vec![], vec![Outcome::Completed], vec![Outcome::Completed; 2]] {
        match copy.run(&manifest, &context, &done) {
            Progress::Finished(Err(error)) => {
                assert_eq!(error.kind, ErrorKind::MissingRoot);
                assert_eq!(error.message, "Manifest has no root directory");
            }
            other => panic!("a copy without a root went on: {:?}", other),
        }
    }
}

#[test]
fn a_directory_that_cannot_be_created_is_an_io_failure() {
    let copy = DirectoryCopy {
        from: String::from("mydir"),
        to: String::from("/proc/nowhere"),
    };
    let manifest = manifest_at(Some("/opt/m"));
    let context = tera::Context::new();
    let done = vec![Outcome::Errored {
        text: String::from("Permission denied (os error 13)"),
    }];
    match copy.run(&manifest, &context, &done) {
        Progress::Finished(Err(error)) => {
            assert_eq!(error.kind, ErrorKind::IOFailure);
            assert_eq!(error.message, "Permission denied (os error 13)");
        }
        other => panic!("the copy went on: {:?}", other),
    }
}

#[test]
fn a_copy_that_fails_is_an_io_failure_with_the_text_of_the_host() {
    let copy = DirectoryCopy {
        from: String::from("mydir"),
        to: String::from("/tmp/test-case"),
    };
    let manifest = manifest_at(Some("/opt/m"));
    let context = tera::Context::new();
    let done = vec![
        Outcome::Completed,
        Outcome::Errored {
            text: String::from("Path \"/opt/m/files/mydir\" does not exist"),
        },
    ];
    match copy.run(&manifest, &context, &done) {
        Progress::Finished(Err(error)) => {
            assert_eq!(error.kind, ErrorKind::IOFailure);
            assert_eq!(error.message, "Path \"/opt/m/files/mydir\" does not exist");
        }
        other => panic!("the copy went on: {:?}", other),
    }
}

#[test]
fn an_action_dispatches_to_its_kind() {
    let action = Actions::DirectoryCopy(DirectoryCopy {
        from: String::from("mydir"),
        to: String::from("/tmp/test-case"),
    });
    let manifest = manifest_at(Some("/opt/m"));
    let context = tera::Context::new();
    assert_eq!(
        action.run(&manifest, &context, &vec![]),
        Progress::Next(Operation::CreateDirectory {
            path: String::from("/tmp/test-case")
        })
    );
}
