//! Copying the contents of a directory shipped with a manifest.

use crate::actions::operation::advance;
use crate::actions::operation::standing;
use crate::actions::ActionError;
use crate::actions::ActionErrorView;
use crate::actions::ErrorKind;
use crate::actions::operation::Operation;
use crate::actions::operation::OperationView;
use crate::actions::operation::Outcome;
use crate::actions::operation::OutcomeView;
use crate::actions::operation::Progress;
use crate::actions::operation::ProgressView;
use crate::manifest::Manifest;
use vstd::prelude::*;

verus! {

/// Copies the contents of `from`, a directory below the manifest's `files`
/// directory, into `to`.
#[derive(Clone, Debug, PartialEq)]
pub struct DirectoryCopy {
    pub from: String,
    pub to: String,
}

/// The mathematical value of a [`DirectoryCopy`].
pub struct DirectoryCopyView {
    pub from: Seq<char>,
    pub to: Seq<char>,
}

impl View for DirectoryCopy {
    type V = DirectoryCopyView;

    open spec fn view(&self) -> DirectoryCopyView {
        DirectoryCopyView { from: self.from@, to: self.to@ }
    }
}

/// The path that `std::path::Path::join` gives for `base` with `child`
/// adjoined.
pub uninterp spec fn joined(base: Seq<char>, child: Seq<char>) -> Seq<char>;

/// Calls `std::path::Path::join` on `base` with `child` and hands back the
/// text of the path it gives. Both are text, so the path is text too.
#[verifier::external_body]
pub(crate) fn join(base: &str, child: &str) -> (path: String)
    ensures
        path@ == joined(base@, child@),
{
    std::path::Path::new(base).join(child).to_string_lossy().into_owned()
}

impl DirectoryCopy {
    /// The directory the action copies from: `from`, below `files`, below
    /// `root`.
    pub open spec fn source_below(self, root: Seq<char>) -> Seq<char> {
        joined(joined(root, "files"@), self.from@)
    }

    /// The host operations of the action for a manifest loaded from `root`:
    /// create the destination with its missing ancestors, then copy the
    /// contents of the source into it.
    pub open spec fn plan(self, root: Seq<char>) -> Seq<OperationView> {
        seq![
            OperationView::CreateDirectory { path: self.to@ },
            OperationView::CopyContents { from: self.source_below(root), to: self.to@ },
        ]
    }

    /// The message of a copy that succeeded.
    pub open spec fn copied() -> Seq<char> {
        "Copied"@
    }

    /// The error of a copy for a manifest that has no root directory.
    pub open spec fn missing_root() -> ActionErrorView {
        ActionErrorView {
            message: "Manifest has no root directory"@,
            kind: ErrorKind::MissingRoot,
        }
    }

    /// Where the action stands for a manifest loaded from `root_dir`, after
    /// the outcomes `done` of the operations performed so far.
    ///
    /// Without a root directory the action has failed with `MissingRoot`,
    /// whatever was done. Else it stands where [`standing`] says for its two
    /// operations.
    pub open spec fn ran(
        self,
        root_dir: Option<Seq<char>>,
        done: Seq<OutcomeView>,
        progress: ProgressView,
    ) -> bool {
        match root_dir {
            None => progress == ProgressView::Failed(Self::missing_root()),
            Some(root) => standing(self.plan(root), done, Self::copied(), progress),
        }
    }

    /// The directory the action copies from, or a `MissingRoot` error if the
    /// manifest has no root directory.
    pub fn source(&self, manifest: &Manifest) -> (source: Result<String, ActionError>)
        ensures
            manifest.root_dir is Some <==> source is Ok,
            source matches Ok(path) ==> path@ == self.source_below(manifest.root_dir->0@),
            source matches Err(error) ==> error@ == Self::missing_root(),
    {
        match &manifest.root_dir {
            Some(root) => {
                let files = join(root.as_str(), "files");
                Ok(join(files.as_str(), self.from.as_str()))
            },
            None => Err(
                ActionError {
                    message: String::from_str("Manifest has no root directory"),
                    kind: ErrorKind::MissingRoot,
                },
            ),
        }
    }

    /// Applies the action, one host operation at a time. `done` holds the
    /// outcomes of the operations performed so far, in order; the result is
    /// the next operation, or the end of the action.
    ///
    /// Without a root directory the action fails with `MissingRoot` before
    /// anything is done. Else the destination is created, then the contents
    /// of the source are copied into it. A failed operation ends the action
    /// with an `IOFailure` that carries the error text of the host; after
    /// both, the action succeeds with the message `Copied`.
    pub fn run(
        &self,
        manifest: &Manifest,
        _context: &tera::Context,
        done: &Vec<Outcome>,
    ) -> (progress: Progress)
        ensures
            self.ran(manifest.root_dir.deep_view(), done.deep_view(), progress@),
    {
        match self.source(manifest) {
            Err(error) => Progress::Finished(Err(error)),
            Ok(source) => {
                let plan = vec![
                    Operation::CreateDirectory { path: self.to.clone() },
                    Operation::CopyContents { from: source, to: self.to.clone() },
                ];
                assert(plan.deep_view() =~= self.plan(manifest.root_dir->0@));
                advance(plan, done, "Copied")
            },
        }
    }
}

} // verus!
