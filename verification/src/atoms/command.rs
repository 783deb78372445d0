//! The process atom: one external command with its arguments and environment.

use vstd::prelude::*;

verus! {

/// Describes one process to spawn on the host.
///
/// `environment` is layered over the environment of the running process when
/// the atom is executed, and `privileged` asks for privilege elevation.
#[derive(Clone, Debug, PartialEq)]
pub struct Exec {
    pub command: String,
    pub arguments: Vec<String>,
    pub environment: Vec<(String, String)>,
    pub privileged: bool,
    pub working_directory: Option<String>,
}

/// The mathematical value of an [`Exec`].
pub struct ExecView {
    pub command: Seq<char>,
    pub arguments: Seq<Seq<char>>,
    pub environment: Seq<(Seq<char>, Seq<char>)>,
    pub privileged: bool,
    pub working_directory: Option<Seq<char>>,
}

impl View for Exec {
    type V = ExecView;

    open spec fn view(&self) -> ExecView {
        ExecView {
            command: self.command@,
            arguments: self.arguments.deep_view(),
            environment: self.environment.deep_view(),
            privileged: self.privileged,
            working_directory: self.working_directory.deep_view(),
        }
    }
}

impl DeepView for Exec {
    type V = ExecView;

    open spec fn deep_view(&self) -> ExecView {
        self@
    }
}

/// What is known of a process atom that did not succeed.
#[derive(Clone, Debug, PartialEq)]
pub struct ExecutionFailure {
    pub command: String,
    /// `None` when the process could not be spawned.
    pub exit_code: Option<i32>,
    pub output: String,
}

impl Exec {
    /// The atom of `Exec::default()`: no command, no arguments, an empty
    /// environment, unprivileged, in the current directory.
    pub open spec fn blank() -> ExecView {
        ExecView {
            command: Seq::empty(),
            arguments: Seq::empty(),
            environment: Seq::empty(),
            privileged: false,
            working_directory: None,
        }
    }

    /// Whether a process that ended with `exit_code` counts as a success.
    pub open spec fn succeeded(exit_code: Option<i32>) -> bool {
        exit_code == Some(0i32)
    }

    /// Judges the end of the process this atom describes. A process that
    /// exited with status zero succeeded. Any other status, or no status at
    /// all (the process could not be spawned), is a failure that names the
    /// command and carries the status and the captured output.
    pub fn check(&self, exit_code: Option<i32>, output: String) -> (verdict: Result<
        (),
        ExecutionFailure,
    >)
        ensures
            Self::succeeded(exit_code) <==> verdict is Ok,
            verdict matches Err(failure) ==> failure.command@ == self.command@
                && failure.exit_code == exit_code && failure.output@ == output@,
    {
        match exit_code {
            Some(code) => {
                if code == 0 {
                    return Ok(());
                }
            },
            None => {},
        }
        Err(ExecutionFailure { command: self.command.clone(), exit_code, output })
    }
}

impl Default for Exec {
    fn default() -> (atom: Exec)
        ensures
            atom@ == Exec::blank(),
    {
        let atom = Exec {
            command: String::new(),
            arguments: Vec::new(),
            environment: Vec::new(),
            privileged: false,
            working_directory: None,
        };
        assert(atom@.arguments =~= Seq::empty());
        assert(atom@.environment =~= Seq::empty());
        atom
    }
}

} // verus!
