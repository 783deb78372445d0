//! Package providers: one per package-management ecosystem.
//!
//! A provider turns the packages an action asks for into the process atoms
//! that install them with one package manager. The providers are a closed
//! set, probed in a fixed order of priority.

use crate::actions::package::providers::aptitude::Aptitude;
use crate::actions::package::PackageVariant;
use crate::actions::package::PackageVariantView;
use crate::actions::ActionError;
use crate::actions::ActionErrorView;
use crate::actions::ErrorKind;
use crate::atoms::command::Exec;
use crate::atoms::command::ExecView;
use vstd::prelude::*;

pub mod aptitude;

verus! {

/// `which::Error`, the reason why a lookup found no executable. The library
/// only tells it from a success.
#[verifier::external_type_specification]
#[verifier::external_body]
pub struct ExLookupError(which::Error);

/// `std::path::PathBuf`, the path of an executable that a lookup found. The
/// library never looks inside.
#[verifier::external_type_specification]
#[verifier::external_body]
pub struct ExPathBuf(std::path::PathBuf);

/// Calls `which::which`, which looks for an executable named `binary_name`
/// in the directories of the search path. What it finds depends on the host,
/// so nothing is claimed of the result.
#[verifier::external_body]
pub(crate) fn locate(binary_name: &str) -> (found: Result<std::path::PathBuf, which::Error>) {
    which::which(binary_name)
}

/// The package providers the engine knows.
#[derive(Clone, Copy, Debug, PartialEq, Eq, Structural)]
pub enum Provider {
    Aptitude(Aptitude),
}

impl Provider {
    /// The name of the provider.
    pub open spec fn label(self) -> Seq<char> {
        match self {
            Provider::Aptitude(_) => Aptitude::label(),
        }
    }

    /// The atoms that prepare the host for the provider.
    pub open spec fn bootstrap_plan(self) -> Seq<ExecView> {
        match self {
            Provider::Aptitude(_) => Aptitude::bootstrap_plan(),
        }
    }

    /// The atoms that register the repository of `variant`.
    pub open spec fn repository_plan(self, variant: PackageVariantView) -> Seq<ExecView> {
        match self {
            Provider::Aptitude(_) => Aptitude::repository_plan(variant),
        }
    }

    /// The package names of `variant` as the provider's tool takes them.
    pub open spec fn resolved(self, variant: PackageVariantView) -> Seq<Seq<char>> {
        match self {
            Provider::Aptitude(_) => Aptitude::resolved(variant),
        }
    }

    /// The atoms that install the packages of `variant`.
    pub open spec fn install_plan(self, variant: PackageVariantView) -> Seq<ExecView> {
        match self {
            Provider::Aptitude(_) => Aptitude::install_plan(variant),
        }
    }

    /// The name of the provider, for diagnostics.
    pub fn name(&self) -> (name: &'static str)
        ensures
            name@ == self.label(),
    {
        match self {
            Provider::Aptitude(provider) => provider.name(),
        }
    }

    /// Probes the host for the provider's tooling. The answer depends on the
    /// host; a missing tool is an answer, not an error.
    pub fn available(&self) -> (found: bool) {
        match self {
            Provider::Aptitude(provider) => provider.available(),
        }
    }

    /// The atoms that install what the provider itself needs.
    pub fn bootstrap(&self) -> (atoms: Vec<Exec>)
        ensures
            atoms.deep_view() == self.bootstrap_plan(),
    {
        match self {
            Provider::Aptitude(provider) => provider.bootstrap(),
        }
    }

    /// Whether the repository of `variant` is known to be registered. A
    /// provider that cannot tell answers `false`.
    pub fn has_repository(&self, variant: &PackageVariant) -> (present: bool)
        ensures
            self is Aptitude ==> !present,
    {
        match self {
            Provider::Aptitude(provider) => provider.has_repository(variant),
        }
    }

    /// The atoms that register the repository of `variant` and refresh the
    /// package index; none if `variant` asks for no repository.
    pub fn add_repository(&self, variant: &PackageVariant) -> (atoms: Vec<Exec>)
        ensures
            atoms.deep_view() == self.repository_plan(variant@),
    {
        match self {
            Provider::Aptitude(provider) => provider.add_repository(variant),
        }
    }

    /// The package names of `variant` as the provider's tool takes them.
    pub fn query(&self, variant: &PackageVariant) -> (names: Vec<String>)
        ensures
            names.deep_view() == self.resolved(variant@),
    {
        match self {
            Provider::Aptitude(provider) => provider.query(variant),
        }
    }

    /// The atoms that install the packages of `variant`.
    pub fn install(&self, variant: &PackageVariant) -> (atoms: Vec<Exec>)
        ensures
            atoms.deep_view() == self.install_plan(variant@),
    {
        match self {
            Provider::Aptitude(provider) => provider.install(variant),
        }
    }
}

/// The providers in their order of priority.
pub open spec fn priority() -> Seq<Provider> {
    seq![Provider::Aptitude(Aptitude {  })]
}

/// The providers the engine knows, in their order of priority.
pub fn registry() -> (providers: Vec<Provider>)
    ensures
        providers@ == priority(),
{
    vec![Provider::Aptitude(Aptitude {  })]
}

/// The error of an install that found no provider.
pub open spec fn no_provider() -> ActionErrorView {
    ActionErrorView {
        message: "No package provider is available on this host"@,
        kind: ErrorKind::NoProviderAvailable,
    }
}

/// Picks the provider to use from the answers of the probes, given in order
/// of priority: the first that is available. With none available the result
/// is a `NoProviderAvailable` error.
pub fn first_available(probes: &Vec<bool>) -> (choice: Result<usize, ActionError>)
    ensures
        match choice {
            Ok(index) => index < probes.len() && probes[index as int] && forall|j: int|
                0 <= j < index ==> !probes[j],
            Err(error) => error@ == no_provider() && forall|j: int|
                0 <= j < probes.len() ==> !probes[j],
        },
{
    let mut i: usize = 0;
    while i < probes.len()
        invariant
            i <= probes.len(),
            forall|j: int| 0 <= j < i ==> !probes[j],
        decreases probes.len() - i,
    {
        if probes[i] {
            return Ok(i);
        }
        i += 1;
    }
    Err(
        ActionError {
            message: String::from_str("No package provider is available on this host"),
            kind: ErrorKind::NoProviderAvailable,
        },
    )
}

/// Probes each provider in turn. The answers depend on the host.
pub fn probe(providers: &Vec<Provider>) -> (probes: Vec<bool>)
    ensures
        probes.len() == providers.len(),
{
    let mut probes: Vec<bool> = Vec::new();
    let mut i: usize = 0;
    while i < providers.len()
        invariant
            i <= providers.len(),
            probes.len() == i,
        decreases providers.len() - i,
    {
        probes.push(providers[i].available());
        i += 1;
    }
    probes
}

/// Selects the provider to install with: the first of `providers` whose
/// tooling the host has. Which one that is depends on the host; with no
/// providers at all the result is the `NoProviderAvailable` error.
pub fn select(providers: &Vec<Provider>) -> (choice: Result<usize, ActionError>)
    ensures
        choice matches Ok(index) ==> index < providers.len(),
        choice matches Err(error) ==> error@ == no_provider(),
        providers.len() == 0 ==> choice is Err,
{
    let probes = probe(providers);
    first_available(&probes)
}

} // verus!
