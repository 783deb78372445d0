//! Installing packages through the package manager of the host.

use crate::actions::operation::advance;
use crate::actions::package::providers::no_provider;
use crate::actions::package::providers::registry;
use crate::actions::package::providers::select;
use crate::actions::package::providers::Provider;
use crate::actions::operation::standing;
use crate::actions::ActionError;
use crate::actions::ActionErrorView;
use crate::actions::ErrorKind;
use crate::actions::operation::Operation;
use crate::actions::operation::OperationView;
use crate::actions::operation::Outcome;
use crate::actions::operation::OutcomeView;
use crate::actions::operation::Progress;
use crate::actions::operation::ProgressView;
use crate::atoms::command::Exec;
use crate::atoms::command::ExecView;
use crate::manifest::Manifest;
use vstd::prelude::*;

pub mod providers;

verus! {

/// What a package action asks for.
#[derive(Clone, Debug, PartialEq)]
pub struct PackageVariant {
    pub packages: Vec<String>,
    pub repository: Option<String>,
    pub extra_args: Vec<String>,
}

/// The mathematical value of a [`PackageVariant`].
pub struct PackageVariantView {
    pub packages: Seq<Seq<char>>,
    pub repository: Option<Seq<char>>,
    pub extra_args: Seq<Seq<char>>,
}

impl View for PackageVariant {
    type V = PackageVariantView;

    open spec fn view(&self) -> PackageVariantView {
        PackageVariantView {
            packages: self.packages.deep_view(),
            repository: self.repository.deep_view(),
            extra_args: self.extra_args.deep_view(),
        }
    }
}

/// Installs the packages of `variant`.
#[derive(Clone, Debug, PartialEq)]
pub struct PackageInstall {
    pub variant: PackageVariant,
}

/// Copies a list of strings.
pub fn copy_strings(source: &Vec<String>) -> (copy: Vec<String>)
    ensures
        copy.deep_view() == source.deep_view(),
{
    let mut copy: Vec<String> = Vec::new();
    let mut i: usize = 0;
    while i < source.len()
        invariant
            i <= source.len(),
            copy.len() == i,
            forall|j: int| 0 <= j < i ==> copy[j]@ == source[j]@,
        decreases source.len() - i,
    {
        copy.push(source[i].clone());
        i += 1;
    }
    assert(copy.deep_view() =~= source.deep_view());
    copy
}

impl PackageVariant {
    /// The names of the packages asked for, in the order given.
    pub fn packages(&self) -> (names: Vec<String>)
        ensures
            names.deep_view() == self@.packages,
    {
        copy_strings(&self.packages)
    }
}

/// Wraps each process atom into the operation that runs it.
pub fn executions(atoms: Vec<Exec>) -> (operations: Vec<Operation>)
    ensures
        operations.deep_view() == PackageInstall::operations(atoms.deep_view()),
{
    let ghost wanted = PackageInstall::operations(atoms.deep_view());
    let mut rest = atoms;
    let mut operations: Vec<Operation> = Vec::new();
    while rest.len() > 0
        invariant
            operations.deep_view() + PackageInstall::operations(rest.deep_view()) == wanted,
        decreases rest.len(),
    {
        let ghost before = rest.deep_view();
        let ghost built = operations.deep_view();
        let atom = rest.remove(0);
        operations.push(Operation::Execute(atom));
        proof {
            assert(rest.deep_view() =~= before.subrange(1, before.len() as int));
            assert(operations.deep_view() =~= built.push(OperationView::Execute(before[0])));
            assert(operations.deep_view() + PackageInstall::operations(rest.deep_view())
                =~= built + PackageInstall::operations(before));
        }
    }
    assert(operations.deep_view() =~= operations.deep_view() + PackageInstall::operations(
        rest.deep_view(),
    ));
    operations
}

impl PackageInstall {
    /// The atoms that install `variant` with `provider`, where `registered`
    /// says whether the repository asked for is already there.
    ///
    /// A repository that is asked for and not yet registered is set up
    /// first; a provider that has no atoms for that fails with
    /// `UnsupportedRepository`. The install atoms follow.
    pub open spec fn atoms(
        provider: Provider,
        variant: PackageVariantView,
        registered: bool,
    ) -> Result<Seq<ExecView>, ActionErrorView> {
        if variant.repository is Some && !registered {
            if provider.repository_plan(variant).len() == 0 {
                Err(Self::unsupported_repository())
            } else {
                Ok(provider.repository_plan(variant) + provider.install_plan(variant))
            }
        } else {
            Ok(provider.install_plan(variant))
        }
    }

    /// The error of an install whose provider cannot register repositories.
    pub open spec fn unsupported_repository() -> ActionErrorView {
        ActionErrorView {
            message: "The package provider cannot add repositories"@,
            kind: ErrorKind::UnsupportedRepository,
        }
    }

    /// The operations that run `atoms`, one process each.
    pub open spec fn operations(atoms: Seq<ExecView>) -> Seq<OperationView> {
        atoms.map_values(|atom: ExecView| OperationView::Execute(atom))
    }

    /// The message of an install that succeeded.
    pub open spec fn installed() -> Seq<char> {
        "Installed"@
    }

    /// Where the install stands with `provider` after the outcomes `done`:
    /// failed at once if the provider has no plan, else as far as
    /// [`standing`] says for the plan's processes.
    pub open spec fn standing_with(
        self,
        provider: Provider,
        registered: bool,
        done: Seq<OutcomeView>,
        progress: ProgressView,
    ) -> bool {
        match Self::atoms(provider, self.variant@, registered) {
            Ok(atoms) => standing(Self::operations(atoms), done, Self::installed(), progress),
            Err(error) => progress == ProgressView::Failed(error),
        }
    }

    /// Where the action can stand after the outcomes `done` of the processes
    /// run so far: failed with `NoProviderAvailable`, or where
    /// [`PackageInstall::standing_with`] says for one of the providers. A
    /// provider that cannot tell whether the repository is registered takes
    /// it as not registered.
    pub open spec fn ran(self, done: Seq<OutcomeView>, progress: ProgressView) -> bool {
        progress == ProgressView::Failed(no_provider()) || exists|i: int, registered: bool|
            0 <= i < providers::priority().len() && (providers::priority()[i] is Aptitude
                ==> !registered) && #[trigger] self.standing_with(
                providers::priority()[i],
                registered,
                done,
                progress,
            )
    }

    /// The atoms that install the packages with `provider`: see
    /// [`PackageInstall::atoms`].
    pub fn plan(&self, provider: &Provider, registered: bool) -> (atoms: Result<
        Vec<Exec>,
        ActionError,
    >)
        ensures
            atoms is Ok <==> Self::atoms(*provider, self.variant@, registered) is Ok,
            atoms matches Ok(list) ==> list.deep_view() == Self::atoms(
                *provider,
                self.variant@,
                registered,
            )->Ok_0,
            atoms matches Err(error) ==> error@ == Self::atoms(
                *provider,
                self.variant@,
                registered,
            )->Err_0,
    {
        let mut install = provider.install(&self.variant);
        if self.variant.repository.is_some() && !registered {
            let mut atoms = provider.add_repository(&self.variant);
            if atoms.len() == 0 {
                return Err(
                    ActionError {
                        message: String::from_str("The package provider cannot add repositories"),
                        kind: ErrorKind::UnsupportedRepository,
                    },
                );
            }
            let ghost setup = atoms.deep_view();
            let ghost rest = install.deep_view();
            atoms.append(&mut install);
            assert(atoms.deep_view() =~= setup + rest);
            Ok(atoms)
        } else {
            Ok(install)
        }
    }

    /// Goes on with the install through `provider` after the outcomes `done`
    /// of the processes run so far: the next process, or the end of the
    /// action. The first process that fails ends the action with an
    /// `ExecutionFailure`.
    pub fn resume(
        &self,
        provider: &Provider,
        registered: bool,
        done: &Vec<Outcome>,
    ) -> (progress: Progress)
        ensures
            self.standing_with(*provider, registered, done.deep_view(), progress@),
    {
        match self.plan(provider, registered) {
            Ok(atoms) => advance(executions(atoms), done, "Installed"),
            Err(error) => Progress::Finished(Err(error)),
        }
    }

    /// Applies the action, one process at a time. `done` holds the outcomes
    /// of the processes run so far, in order.
    ///
    /// The providers are probed in their order of priority and the first one
    /// available is used; which providers are available depends on the host.
    /// With none available the action fails with `NoProviderAvailable`. Else
    /// the action goes on as [`PackageInstall::resume`] does with that
    /// provider.
    pub fn run(
        &self,
        _manifest: &Manifest,
        _context: &tera::Context,
        done: &Vec<Outcome>,
    ) -> (progress: Progress)
        ensures
            self.ran(done.deep_view(), progress@),
    {
        let providers = registry();
        match select(&providers) {
            Err(error) => Progress::Finished(Err(error)),
            Ok(index) => {
                let provider = &providers[index];
                let registered = provider.has_repository(&self.variant);
                let progress = self.resume(provider, registered, done);
                assert(self.standing_with(
                    providers::priority()[index as int],
                    registered,
                    done.deep_view(),
                    progress@,
                ));
                progress
            },
        }
    }
}

} // verus!
