//! The host operations of an action, and how an action goes on after each.

use crate::actions::ActionError;
use crate::actions::ActionErrorView;
use crate::actions::ActionResult;
use crate::actions::ActionResultView;
use crate::actions::ErrorKind;
use crate::atoms::command::Exec;
use crate::atoms::command::ExecView;
use vstd::prelude::*;

verus! {

/// One operation on the host.
#[derive(Clone, Debug, PartialEq)]
pub enum Operation {
    /// Create the directory `path` and every missing ancestor.
    CreateDirectory { path: String },
    /// Copy what the directory `from` contains into the directory `to`,
    /// overwriting files of the same name and deleting nothing.
    CopyContents { from: String, to: String },
    /// Run a process and wait for it to exit.
    Execute(Exec),
}

/// The mathematical value of an [`Operation`].
pub enum OperationView {
    CreateDirectory { path: Seq<char> },
    CopyContents { from: Seq<char>, to: Seq<char> },
    Execute(ExecView),
}

impl View for Operation {
    type V = OperationView;

    open spec fn view(&self) -> OperationView {
        match self {
            Operation::CreateDirectory { path } => OperationView::CreateDirectory { path: path@ },
            Operation::CopyContents { from, to } => OperationView::CopyContents {
                from: from@,
                to: to@,
            },
            Operation::Execute(atom) => OperationView::Execute(atom@),
        }
    }
}

impl DeepView for Operation {
    type V = OperationView;

    open spec fn deep_view(&self) -> OperationView {
        self@
    }
}

/// What the caller observed when it performed an operation.
#[derive(Clone, Debug, PartialEq)]
pub enum Outcome {
    /// The operation was carried out.
    Completed,
    /// The operation could not be carried out, or the process could not be
    /// spawned; `text` is the error of the host.
    Errored { text: String },
    /// The process ran and exited with `code`.
    Exited { code: i32, output: String },
}

/// The mathematical value of an [`Outcome`].
pub enum OutcomeView {
    Completed,
    Errored { text: Seq<char> },
    Exited { code: i32, output: Seq<char> },
}

impl OutcomeView {
    /// Whether the operation failed: the host refused it, or the process
    /// exited with a status other than zero.
    pub open spec fn failed(self) -> bool {
        match self {
            OutcomeView::Completed => false,
            OutcomeView::Errored { .. } => true,
            OutcomeView::Exited { code, .. } => code != 0,
        }
    }

    /// The exit status the outcome stands for: zero for a completed
    /// operation, none where nothing ran.
    pub open spec fn exit_code(self) -> Option<i32> {
        match self {
            OutcomeView::Completed => Some(0i32),
            OutcomeView::Errored { .. } => None,
            OutcomeView::Exited { code, .. } => Some(code),
        }
    }

    /// The text that came with the outcome.
    pub open spec fn text(self) -> Seq<char> {
        match self {
            OutcomeView::Completed => Seq::empty(),
            OutcomeView::Errored { text } => text,
            OutcomeView::Exited { output, .. } => output,
        }
    }
}

impl View for Outcome {
    type V = OutcomeView;

    open spec fn view(&self) -> OutcomeView {
        match self {
            Outcome::Completed => OutcomeView::Completed,
            Outcome::Errored { text } => OutcomeView::Errored { text: text@ },
            Outcome::Exited { code, output } => OutcomeView::Exited {
                code: *code,
                output: output@,
            },
        }
    }
}

impl DeepView for Outcome {
    type V = OutcomeView;

    open spec fn deep_view(&self) -> OutcomeView {
        self@
    }
}

/// How far an action has come.
#[derive(Debug, PartialEq)]
pub enum Progress {
    /// The caller performs this operation and reports its outcome.
    Next(Operation),
    /// The action is over.
    Finished(Result<ActionResult, ActionError>),
}

/// The mathematical value of a [`Progress`].
pub enum ProgressView {
    Next(OperationView),
    Succeeded(ActionResultView),
    Failed(ActionErrorView),
}

impl View for Progress {
    type V = ProgressView;

    open spec fn view(&self) -> ProgressView {
        match self {
            Progress::Next(operation) => ProgressView::Next(operation@),
            Progress::Finished(Ok(result)) => ProgressView::Succeeded(result@),
            Progress::Finished(Err(error)) => ProgressView::Failed(error@),
        }
    }
}

/// The error an action ends with when `operation` had the failed `outcome`:
/// an `ExecutionFailure` for a process, an `IOFailure` for anything else, with
/// the text of the outcome as its message.
pub open spec fn failure_of(operation: OperationView, outcome: OutcomeView) -> ActionErrorView {
    ActionErrorView {
        message: outcome.text(),
        kind: if operation is Execute {
            ErrorKind::ExecutionFailure
        } else {
            ErrorKind::IOFailure
        },
    }
}

/// Where an action stands whose operations are `plan`, after the outcomes
/// `done` of the operations performed so far.
///
/// The first failed outcome ends the action with [`failure_of`] that
/// operation. Without a failure, the operation after the ones performed is
/// next, and when none is left the action succeeds with `message`.
pub open spec fn standing(
    plan: Seq<OperationView>,
    done: Seq<OutcomeView>,
    message: Seq<char>,
    progress: ProgressView,
) -> bool {
    let performed = if done.len() < plan.len() {
        done.len() as int
    } else {
        plan.len() as int
    };
    match progress {
        ProgressView::Failed(error) => exists|i: int|
            0 <= i < performed && #[trigger] done[i].failed() && error == failure_of(
                plan[i],
                done[i],
            ) && forall|j: int| 0 <= j < i ==> !(#[trigger] done[j].failed()),
        ProgressView::Next(operation) => done.len() < plan.len() && operation
            == plan[done.len() as int] && forall|j: int|
            0 <= j < performed ==> !(#[trigger] done[j].failed()),
        ProgressView::Succeeded(result) => done.len() >= plan.len() && result.message
            == message && forall|j: int| 0 <= j < performed ==> !(#[trigger] done[j].failed()),
    }
}

impl Outcome {
    /// Whether the operation failed.
    pub fn failed(&self) -> (failed: bool)
        ensures
            failed == self@.failed(),
    {
        match self {
            Outcome::Completed => false,
            Outcome::Errored { .. } => true,
            Outcome::Exited { code, .. } => *code != 0,
        }
    }

    /// The exit status and text of the outcome, as [`Exec::check`] takes them.
    pub fn status(&self) -> (status: (Option<i32>, String))
        ensures
            status.0 == self@.exit_code(),
            status.1@ == self@.text(),
            Exec::succeeded(status.0) <==> !self@.failed(),
    {
        match self {
            Outcome::Completed => (Some(0), String::new()),
            Outcome::Errored { text } => (None, text.clone()),
            Outcome::Exited { code, output } => (Some(*code), output.clone()),
        }
    }
}

/// Judges the outcome of one operation: `None` if it succeeded, else the
/// error the action ends with.
pub fn judge(operation: &Operation, outcome: &Outcome) -> (error: Option<ActionError>)
    ensures
        error is Some <==> outcome@.failed(),
        error matches Some(e) ==> e@ == failure_of(operation@, outcome@),
{
    let (exit_code, text) = outcome.status();
    match operation {
        Operation::Execute(atom) => {
            match atom.check(exit_code, text) {
                Ok(_) => None,
                Err(failure) => Some(
                    ActionError { message: failure.output, kind: ErrorKind::ExecutionFailure },
                ),
            }
        },
        _ => {
            if outcome.failed() {
                Some(ActionError { message: text, kind: ErrorKind::IOFailure })
            } else {
                None
            }
        },
    }
}

/// Decides how an action with the operations `plan` goes on after the
/// outcomes `done`: see [`standing`].
pub fn advance(plan: Vec<Operation>, done: &Vec<Outcome>, message: &str) -> (progress: Progress)
    ensures
        standing(plan.deep_view(), done.deep_view(), message@, progress@),
{
    let ghost operations = plan.deep_view();
    let ghost outcomes = done.deep_view();
    let performed: usize = if done.len() < plan.len() {
        done.len()
    } else {
        plan.len()
    };
    let mut i: usize = 0;
    while i < performed
        invariant
            i <= performed,
            performed <= plan.len(),
            performed <= done.len(),
            operations == plan.deep_view(),
            outcomes == done.deep_view(),
            forall|j: int| 0 <= j < i ==> !(#[trigger] outcomes[j].failed()),
        decreases performed - i,
    {
        match judge(&plan[i], &done[i]) {
            Some(error) => {
                assert(outcomes[i as int].failed());
                assert(error@ == failure_of(operations[i as int], outcomes[i as int]));
                return Progress::Finished(Err(error));
            },
            None => {},
        }
        i += 1;
    }
    if done.len() < plan.len() {
        let mut rest = plan;
        let operation = rest.remove(done.len());
        assert(operations[done.len() as int] == operation@);
        Progress::Next(operation)
    } else {
        Progress::Finished(Ok(ActionResult { message: String::from_str(message) }))
    }
}

} // verus!
