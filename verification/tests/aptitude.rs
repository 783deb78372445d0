use provision::actions::package::providers::aptitude::Aptitude;
use provision::actions::package::providers::first_available;
use provision::actions::package::providers::probe;
use provision::actions::package::providers::registry;
use provision::actions::package::providers::select;
use provision::actions::package::providers::Provider;
use provision::actions::package::PackageInstall;
use provision::actions::package::PackageVariant;
use provision::actions::ErrorKind;
use provision::actions::operation::Operation;
use provision::actions::operation::Outcome;
use provision::actions::operation::Progress;
use provision::atoms::command::Exec;

fn variant(packages: &[&str], repository: Option<&str>, extra_args: &[&str]) -> PackageVariant {
    PackageVariant {
        packages: packages.iter().map(|p| p.to_string()).collect(),
        repository: repository.map(String::from),
        extra_args: extra_args.iter().map(|a| a.to_string()).collect(),
    }
}

fn noninteractive() -> Vec<(String, String)> {
    vec![(
        String::from("DEBIAN_FRONTEND"),
        String::from("noninteractive"),
    )]
}

fn apt(command: &str, arguments: &[&str]) -> Exec {
    Exec {
        command: String::from(command),
        arguments: arguments.iter().map(|a| a.to_string()).collect(),
        environment: noninteractive(),
        privileged: true,
        working_directory: None,
    }
}

#[test]
fn the_environment_keeps_apt_from_asking() {
    assert_eq!(Aptitude {}.env(), noninteractive());
}

#[test]
fn the_provider_is_named_aptitude() {
    assert_eq!(Aptitude {}.name(), "Aptitude");
    assert_eq!(Provider::Aptitude(Aptitude {}).name(), "Aptitude");
}

#[test]
fn install_arguments_are_flags_then_extra_arguments_then_packages() {
    let atoms = Aptitude {}.install(&variant(&["x", "y"], None, &["--no-recommends"]));
    assert_eq!(atoms.len(), 1);
    assert_eq!(atoms[0].command, "apt");
    assert_eq!(
        atoms[0].arguments,
        vec!["install", "--yes", "--no-recommends", "x", "y"]
    );
    assert_eq!(atoms[0].environment, noninteractive());
    assert!(atoms[0].privileged);
    assert_eq!(atoms[0].working_directory, None);
}

#[test]
fn install_without_packages_or_extra_arguments_keeps_the_flags() {
    let atoms = Aptitude {}.install(&variant(&[], None, &[]));
    assert_eq!(atoms, vec![apt("apt", &["install", "--yes"])]);
}

#[test]
fn bootstrap_installs_the_repository_tools() {
    assert_eq!(
        Aptitude {}.bootstrap(),
        vec![apt(
            "apt",
            &["install", "--yes", "software-properties-common", "gpg"]
        )]
    );
}

#[test]
fn a_repository_is_never_known_to_be_registered() {
    assert!(!Aptitude {}.has_repository(&variant(&["x"], Some("ppa:a/b"), &[])));
    assert!(!Aptitude {}.has_repository(&variant(&["x"], None, &[])));
}

#[test]
fn add_repository_registers_then_refreshes() {
    let atoms = Aptitude {}.add_repository(&variant(&["x"], Some("ppa:a/b"), &[]));
    assert_eq!(
        atoms,
        vec![
            apt("apt-add-repository", &["-y", "ppa:a/b"]),
            apt("apt", &["update"]),
        ]
    );
}

#[test]
fn without_a_repository_there_is_nothing_to_add() {
    assert!(Aptitude {}.add_repository(&variant(&["x"], None, &[])).is_empty());
}

#[test]
fn query_passes_the_package_names_through() {
    let names = Aptitude {}.query(&variant(&["x", "y"], None, &["--no-recommends"]));
    assert_eq!(names, vec!["x", "y"]);
    assert_eq!(variant(&["b", "a"], None, &[]).packages(), vec!["b", "a"]);
}

#[test]
fn the_provider_is_usable_exactly_if_its_tool_was_found() {
    assert!(Aptitude::usable(&Ok(std::path::PathBuf::from(
        "/usr/bin/apt-add-repository"
    ))));
    assert!(!Aptitude::usable(&Err(which::Error::CannotFindBinaryPath)));
    assert!(!Aptitude::usable(&Err(which::Error::BadAbsolutePath)));
}

#[test]
fn probing_a_host_is_no_error() {
    let expected = which::which("apt-add-repository").is_ok();
    assert_eq!(Aptitude {}.available(), expected);
    assert_eq!(Provider::Aptitude(Aptitude {}).available(), expected);
    assert_eq!(probe(&registry()), vec![expected]);
}

#[test]
fn the_first_available_provider_is_selected() {
    assert_eq!(first_available(&vec![true]), Ok(0));
    assert_eq!(first_available(&vec![false, true, true]), Ok(1));
    assert_eq!(first_available(&vec![false, false, true]), Ok(2));
}

#[test]
fn no_available_provider_is_an_error_of_the_install() {
    for probes in [vec![], vec![false], vec![false, false]] {
        let error = first_available(&probes).unwrap_err();
        assert_eq!(error.kind, ErrorKind::NoProviderAvailable);
        assert_eq!(
            error.message,
            "No package provider is available on this host"
        );
    }
    let error = select(&vec![]).unwrap_err();
    assert_eq!(error.kind, ErrorKind::NoProviderAvailable);
}

#[test]
fn selection_follows_the_probe_of_the_host() {
    let providers = registry();
    assert_eq!(providers, vec![Provider::Aptitude(Aptitude {})]);
    match select(&providers) {
        Ok(index) => {
            assert_eq!(index, 0);
            assert!(providers[index].available());
        }
        Err(error) => {
            assert_eq!(error.kind, ErrorKind::NoProviderAvailable);
            assert!(!providers[0].available());
        }
    }
}

#[test]
fn the_dispatch_gives_what_the_provider_gives() {
    let provider = Provider::Aptitude(Aptitude {});
    let wanted = variant(&["x"], Some("ppa:a/b"), &["-q"]);
    assert_eq!(provider.bootstrap(), Aptitude {}.bootstrap());
    assert_eq!(provider.install(&wanted), Aptitude {}.install(&wanted));
    assert_eq!(
        provider.add_repository(&wanted),
        Aptitude {}.add_repository(&wanted)
    );
    assert_eq!(provider.query(&wanted), vec!["x"]);
    assert!(!provider.has_repository(&wanted));
}

#[test]
fn a_repository_that_is_asked_for_is_set_up_before_the_install() {
    let install = PackageInstall {
        variant: variant(&["x"], Some("ppa:a/b"), &[]),
    };
    let provider = Provider::Aptitude(Aptitude {});
    assert_eq!(
        install.plan(&provider, false).unwrap(),
        vec![
            apt("apt-add-repository", &["-y", "ppa:a/b"]),
            apt("apt", &["update"]),
            apt("apt", &["install", "--yes", "x"]),
        ]
    );
    assert_eq!(
        install.plan(&provider, true).unwrap(),
        vec![apt("apt", &["install", "--yes", "x"])]
    );
    let plain = PackageInstall {
        variant: variant(&["x"], None, &[]),
    };
    assert_eq!(
        plain.plan(&provider, false).unwrap(),
        vec![apt("apt", &["install", "--yes", "x"])]
    );
}

#[test]
fn an_install_runs_its_atoms_in_order() {
    let install = PackageInstall {
        variant: variant(&["x"], Some("ppa:a/b"), &[]),
    };
    let provider = Provider::Aptitude(Aptitude {});
    let mut done: Vec<Outcome> = Vec::new();
    let mut commands: Vec<Vec<String>> = Vec::new();
    loop {
        match install.resume(&provider, false, &done) {
            Progress::Next(Operation::Execute(atom)) => {
                let mut line = vec![atom.command.clone()];
                line.extend(atom.arguments.iter().cloned());
                commands.push(line);
                done.push(Outcome::Exited {
                    code: 0,
                    output: String::new(),
                });
            }
            Progress::Next(other) => panic!("not a process: {:?}", other),
            Progress::Finished(result) => {
                assert_eq!(result.unwrap().message, "Installed");
                break;
            }
        }
    }
    assert_eq!(
        commands,
        vec![
            vec!["apt-add-repository", "-y", "ppa:a/b"],
            vec!["apt", "update"],
            vec!["apt", "install", "--yes", "x"],
        ]
    );
}

#[test]
fn an_install_stops_at_the_first_atom_that_fails() {
    let install = PackageInstall {
        variant: variant(&["x"], Some("ppa:a/b"), &[]),
    };
    let provider = Provider::Aptitude(Aptitude {});
    let done = vec![
        Outcome::Exited {
            code: 0,
            output: String::new(),
        },
        Outcome::Exited {
            code: 100,
            output: String::from("E: Could not get lock"),
        },
    ];
    match install.resume(&provider, false, &done) {
        Progress::Finished(Err(error)) => {
            assert_eq!(error.kind, ErrorKind::ExecutionFailure);
            assert_eq!(error.message, "E: Could not get lock");
        }
        other => panic!("the install went on: {:?}", other),
    }
    let unspawned = vec![Outcome::Errored {
        text: String::from("No such file or directory (os error 2)"),
    }];
    match install.resume(&provider, false, &unspawned) {
        Progress::Finished(Err(error)) => {
            assert_eq!(error.kind, ErrorKind::ExecutionFailure);
            assert_eq!(error.message, "No such file or directory (os error 2)");
        }
        other => panic!("the install went on: {:?}", other),
    }
}

#[test]
fn an_install_on_this_host_finds_a_provider_or_says_so() {
    let install = PackageInstall {
        variant: variant(&["x", "y"], None, &["--no-recommends"]),
    };
    let manifest = provision::manifest::Manifest {
        name: None,
        actions: vec![],
        depends: vec![],
        root_dir: None,
        dag_index: None,
    };
    let context = tera::Context::new();
    let progress = install.run(&manifest, &context, &vec![]);
    if which::which("apt-add-repository").is_ok() {
        assert_eq!(
            progress,
            Progress::Next(Operation::Execute(apt(
                "apt",
                &["install", "--yes", "--no-recommends", "x", "y"]
            )))
        );
    } else {
        match progress {
            Progress::Finished(Err(error)) => {
                assert_eq!(error.kind, ErrorKind::NoProviderAvailable)
            }
            other => panic!("an install without a provider went on: {:?}", other),
        }
    }
}
