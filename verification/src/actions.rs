//! Actions: the declarative units of change a manifest lists.
//!
//! An action is applied as a sequence of host operations. The library never
//! touches the host: it names the next operation, the caller performs it and
//! reports the outcome, and the library decides how the action goes on.

use crate::actions::declaration::Kind;
use crate::actions::directory::copy::DirectoryCopy;
use crate::actions::directory::copy::DirectoryCopyView;
use crate::actions::operation::Outcome;
use crate::actions::operation::Progress;
use crate::actions::package::PackageInstall;
use crate::actions::package::PackageVariantView;
use crate::manifest::Manifest;
use vstd::prelude::*;

pub mod declaration;
pub mod directory;
pub mod operation;
pub mod package;

verus! {

/// `tera::Context`, the scope of variables that an action is run with. The
/// library hands it on and never looks inside.
#[verifier::external_type_specification]
#[verifier::external_body]
pub struct ExContext(tera::Context);

/// The kinds of failure the engine reports.
#[derive(Clone, Copy, Debug, PartialEq, Eq, Structural)]
pub enum ErrorKind {
    UnknownDependency,
    DependencyCycle,
    MissingRoot,
    IOFailure,
    ExecutionFailure,
    NoProviderAvailable,
    UnsupportedRepository,
}

/// The outcome of an action that succeeded.
#[derive(Clone, Debug, PartialEq)]
pub struct ActionResult {
    pub message: String,
}

/// The mathematical value of an [`ActionResult`].
pub struct ActionResultView {
    pub message: Seq<char>,
}

impl View for ActionResult {
    type V = ActionResultView;

    open spec fn view(&self) -> ActionResultView {
        ActionResultView { message: self.message@ }
    }
}

/// The outcome of an action that failed.
#[derive(Clone, Debug, PartialEq)]
pub struct ActionError {
    pub message: String,
    pub kind: ErrorKind,
}

/// The mathematical value of an [`ActionError`].
pub struct ActionErrorView {
    pub message: Seq<char>,
    pub kind: ErrorKind,
}

impl View for ActionError {
    type V = ActionErrorView;

    open spec fn view(&self) -> ActionErrorView {
        ActionErrorView { message: self.message@, kind: self.kind }
    }
}

/// The closed set of actions a manifest can declare.
#[derive(Clone, Debug, PartialEq)]
pub enum Actions {
    DirectoryCopy(DirectoryCopy),
    PackageInstall(PackageInstall),
}

/// The mathematical value of an [`Actions`].
pub enum ActionsView {
    DirectoryCopy(DirectoryCopyView),
    PackageInstall(PackageVariantView),
}

impl View for Actions {
    type V = ActionsView;

    open spec fn view(&self) -> ActionsView {
        match self {
            Actions::DirectoryCopy(copy) => ActionsView::DirectoryCopy(copy@),
            Actions::PackageInstall(install) => ActionsView::PackageInstall(install.variant@),
        }
    }
}

impl Actions {
    /// The kind of the action.
    pub fn kind(&self) -> (kind: Kind)
        ensures
            kind == match self {
                Actions::DirectoryCopy(_) => Kind::DirectoryCopy,
                Actions::PackageInstall(_) => Kind::PackageInstall,
            },
    {
        match self {
            Actions::DirectoryCopy(_) => Kind::DirectoryCopy,
            Actions::PackageInstall(_) => Kind::PackageInstall,
        }
    }

    /// Applies the action, one host operation at a time: see
    /// [`DirectoryCopy::run`] and [`PackageInstall::run`].
    pub fn run(
        &self,
        manifest: &Manifest,
        context: &tera::Context,
        done: &Vec<Outcome>,
    ) -> (progress: Progress)
        ensures
            match self {
                Actions::DirectoryCopy(copy) => copy.ran(
                    manifest.root_dir.deep_view(),
                    done.deep_view(),
                    progress@,
                ),
                Actions::PackageInstall(install) => install.ran(done.deep_view(), progress@),
            },
    {
        match self {
            Actions::DirectoryCopy(copy) => copy.run(manifest, context, done),
            Actions::PackageInstall(install) => install.run(manifest, context, done),
        }
    }
}

} // verus!
