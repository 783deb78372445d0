//! The provider for Debian-family hosts.

use crate::actions::package::copy_strings;
use crate::actions::package::providers::locate;
use crate::actions::package::PackageVariant;
use crate::actions::package::PackageVariantView;
use crate::atoms::command::Exec;
use crate::atoms::command::ExecView;
use vstd::prelude::*;

verus! {

/// Installs packages with `apt`.
#[derive(Clone, Copy, Debug, PartialEq, Eq, Structural)]
pub struct Aptitude {}

impl Aptitude {
    /// The name of the provider.
    pub open spec fn label() -> Seq<char> {
        "Aptitude"@
    }

    /// The environment every process of this provider gets: it keeps the
    /// package manager from asking questions.
    pub open spec fn environment() -> Seq<(Seq<char>, Seq<char>)> {
        seq![("DEBIAN_FRONTEND"@, "noninteractive"@)]
    }

    /// A privileged process atom of this provider.
    pub open spec fn atom(command: Seq<char>, arguments: Seq<Seq<char>>) -> ExecView {
        ExecView {
            command,
            arguments,
            environment: Self::environment(),
            privileged: true,
            working_directory: None,
        }
    }

    /// The atoms of [`Aptitude::bootstrap`].
    pub open spec fn bootstrap_plan() -> Seq<ExecView> {
        seq![
            Self::atom(
                "apt"@,
                seq!["install"@, "--yes"@, "software-properties-common"@, "gpg"@],
            ),
        ]
    }

    /// The atoms of [`Aptitude::add_repository`]: register the repository,
    /// then refresh the package index. Without a repository there is nothing
    /// to do.
    pub open spec fn repository_plan(variant: PackageVariantView) -> Seq<ExecView> {
        match variant.repository {
            Some(repository) => seq![
                Self::atom("apt-add-repository"@, seq!["-y"@, repository]),
                Self::atom("apt"@, seq!["update"@]),
            ],
            None => Seq::empty(),
        }
    }

    /// The names of [`Aptitude::query`]: the package names as they are.
    pub open spec fn resolved(variant: PackageVariantView) -> Seq<Seq<char>> {
        variant.packages
    }

    /// The atoms of [`Aptitude::install`]: the flags that keep `apt` from
    /// asking, then the extra arguments, then the package names.
    pub open spec fn install_plan(variant: PackageVariantView) -> Seq<ExecView> {
        seq![
            Self::atom(
                "apt"@,
                seq!["install"@, "--yes"@] + variant.extra_args + Self::resolved(variant),
            ),
        ]
    }

    /// The environment of the provider's processes.
    pub fn env(&self) -> (pairs: Vec<(String, String)>)
        ensures
            pairs.deep_view() == Self::environment(),
    {
        let pairs = vec![(String::from_str("DEBIAN_FRONTEND"), String::from_str("noninteractive"))];
        assert(pairs.deep_view() =~= Self::environment());
        pairs
    }

    /// A privileged process atom with the provider's environment.
    fn privileged(&self, command: &str, arguments: Vec<String>) -> (atom: Exec)
        ensures
            atom@ == Self::atom(command@, arguments.deep_view()),
    {
        Exec {
            command: String::from_str(command),
            arguments,
            environment: self.env(),
            privileged: true,
            working_directory: None,
        }
    }

    /// The name of the provider, for diagnostics.
    pub fn name(&self) -> (name: &'static str)
        ensures
            name@ == Self::label(),
    {
        "Aptitude"
    }

    /// Whether the provider is usable on a host where the lookup of its
    /// repository tool ended with `lookup`: it is if the tool was found.
    pub fn usable(lookup: &Result<std::path::PathBuf, which::Error>) -> (found: bool)
        ensures
            found == (lookup is Ok),
    {
        match lookup {
            Ok(_) => true,
            Err(_) => false,
        }
    }

    /// Probes the host for `apt-add-repository`. The answer depends on the
    /// host; a missing tool is an answer, not an error.
    pub fn available(&self) -> (found: bool) {
        let lookup = locate("apt-add-repository");
        Self::usable(&lookup)
    }

    /// The atom that installs the tools the provider needs to manage
    /// repositories.
    pub fn bootstrap(&self) -> (atoms: Vec<Exec>)
        ensures
            atoms.deep_view() == Self::bootstrap_plan(),
    {
        let arguments = vec![
            String::from_str("install"),
            String::from_str("--yes"),
            String::from_str("software-properties-common"),
            String::from_str("gpg"),
        ];
        assert(arguments.deep_view() =~= seq![
            "install"@,
            "--yes"@,
            "software-properties-common"@,
            "gpg"@,
        ]);
        let atoms = vec![self.privileged("apt", arguments)];
        assert(atoms.deep_view() =~= Self::bootstrap_plan());
        atoms
    }

    /// Whether the repository of `variant` is registered. The provider
    /// cannot tell, so the answer is always `false`.
    pub fn has_repository(&self, _variant: &PackageVariant) -> (present: bool)
        ensures
            !present,
    {
        false
    }

    /// The atoms that register the repository of `variant` and refresh the
    /// package index; none if `variant` asks for no repository.
    pub fn add_repository(&self, variant: &PackageVariant) -> (atoms: Vec<Exec>)
        ensures
            atoms.deep_view() == Self::repository_plan(variant@),
    {
        match &variant.repository {
            Some(repository) => {
                let register = vec![String::from_str("-y"), repository.clone()];
                assert(register.deep_view() =~= seq!["-y"@, variant@.repository->0]);
                let refresh = vec![String::from_str("update")];
                assert(refresh.deep_view() =~= seq!["update"@]);
                let atoms = vec![
                    self.privileged("apt-add-repository", register),
                    self.privileged("apt", refresh),
                ];
                assert(atoms.deep_view() =~= Self::repository_plan(variant@));
                atoms
            },
            None => {
                let atoms: Vec<Exec> = Vec::new();
                assert(atoms.deep_view() =~= Self::repository_plan(variant@));
                atoms
            },
        }
    }

    /// The package names of `variant` as `apt` takes them: unchanged.
    pub fn query(&self, variant: &PackageVariant) -> (names: Vec<String>)
        ensures
            names.deep_view() == Self::resolved(variant@),
    {
        variant.packages()
    }

    /// The atom that installs the packages of `variant`.
    pub fn install(&self, variant: &PackageVariant) -> (atoms: Vec<Exec>)
        ensures
            atoms.deep_view() == Self::install_plan(variant@),
    {
        let mut arguments = vec![String::from_str("install"), String::from_str("--yes")];
        let mut extra = copy_strings(&variant.extra_args);
        let mut names = self.query(variant);
        let ghost flags = arguments.deep_view();
        arguments.append(&mut extra);
        arguments.append(&mut names);
        proof {
            assert(flags =~= seq!["install"@, "--yes"@]);
            assert(arguments.deep_view() =~= seq!["install"@, "--yes"@] + variant@.extra_args
                + Self::resolved(variant@));
        }
        let atoms = vec![self.privileged("apt", arguments)];
        assert(atoms.deep_view() =~= Self::install_plan(variant@));
        atoms
    }
}

} // verus!
