//! The sandboxed process execution primitive: what a run is given, what it
//! yields, and how the raw numbers of the operating system are read.

use vstd::prelude::*;
use vstd::string::StringSliceAdditionalSpecFns;
use vstd::utf8::valid_utf8;

pub mod command;
pub mod filter;
pub mod launch;
pub mod resource;

pub use resource::{ResourceLimits, ResourceUsage};

verus! {

/// How a child process ended.
#[derive(Clone, Copy, Debug, PartialEq, Eq, Hash, Structural)]
pub enum ExitStatus {
    /// The process returned from `main` or called `exit` with this code.
    Exited { code: i32 },
    /// The process was terminated by this signal and has no exit code.
    Signalled { signal: i32 },
}

impl ExitStatus {
    /// The exit code, if the process exited by itself.
    pub open spec fn spec_code(self) -> Option<i32> {
        match self {
            ExitStatus::Exited { code } => Some(code),
            ExitStatus::Signalled { .. } => None,
        }
    }

    /// The process exited by itself with code 0.
    pub open spec fn spec_success(self) -> bool {
        self == (ExitStatus::Exited { code: 0 })
    }

    /// The exit code, or `None` if the process was terminated by a signal.
    pub fn code(&self) -> (r: Option<i32>)
        ensures
            r == self.spec_code(),
    {
        match self {
            ExitStatus::Exited { code } => Some(*code),
            ExitStatus::Signalled { .. } => None,
        }
    }

    /// The signal that terminated the process, if one did.
    pub fn signal(&self) -> (r: Option<i32>)
        ensures
            r == match *self {
                ExitStatus::Exited { .. } => None::<i32>,
                ExitStatus::Signalled { signal } => Some(signal),
            },
    {
        match self {
            ExitStatus::Exited { .. } => None,
            ExitStatus::Signalled { signal } => Some(*signal),
        }
    }

    /// Whether the process exited by itself with code 0.
    pub fn success(&self) -> (r: bool)
        ensures
            r == self.spec_success(),
    {
        match self {
            ExitStatus::Exited { code } => *code == 0,
            ExitStatus::Signalled { .. } => false,
        }
    }
}

/// The two ways a command is run: a compiler runs unrestricted, a submission
/// runs under every layer of the sandbox.
#[derive(Clone, Copy, Debug, PartialEq, Eq, Structural)]
pub enum Profile {
    Compile,
    Run(ResourceLimits),
}

/// What a finished run leaves behind.
#[derive(Clone, Debug, PartialEq, Eq)]
pub struct Output {
    pub exit_status: ExitStatus,
    pub stdout: Vec<u8>,
    pub stderr: Vec<u8>,
    pub resource_usage: ResourceUsage,
}

/// An [`Output`] as plain values.
pub struct OutputView {
    pub exit_status: ExitStatus,
    pub stdout: Seq<u8>,
    pub stderr: Seq<u8>,
    pub resource_usage: ResourceUsage,
}

impl View for Output {
    type V = OutputView;

    open spec fn view(&self) -> OutputView {
        OutputView {
            exit_status: self.exit_status,
            stdout: self.stdout@,
            stderr: self.stderr@,
            resource_usage: self.resource_usage,
        }
    }
}

impl Output {
    pub fn new(
        exit_status: ExitStatus,
        stdout: Vec<u8>,
        stderr: Vec<u8>,
        resource_usage: ResourceUsage,
    ) -> (output: Self)
        ensures
            output@ == (OutputView {
                exit_status,
                stdout: stdout@,
                stderr: stderr@,
                resource_usage,
            }),
    {
        Self { exit_status, stdout, stderr, resource_usage }
    }

    pub fn exit_status(&self) -> (r: ExitStatus)
        ensures
            r == self@.exit_status,
    {
        self.exit_status
    }

    pub fn stdout(&self) -> (r: &[u8])
        ensures
            r@ == self@.stdout,
    {
        self.stdout.as_slice()
    }

    /// Standard output as text, if it is valid UTF-8.
    pub fn stdout_utf8(&self) -> (r: Result<&str, core::str::Utf8Error>)
        ensures
            r is Ok <==> valid_utf8(self@.stdout),
            r matches Ok(s) ==> s.spec_bytes() == self@.stdout,
    {
        core::str::from_utf8(self.stdout())
    }

    pub fn stderr(&self) -> (r: &[u8])
        ensures
            r@ == self@.stderr,
    {
        self.stderr.as_slice()
    }

    /// Standard error as text, if it is valid UTF-8.
    pub fn stderr_utf8(&self) -> (r: Result<&str, core::str::Utf8Error>)
        ensures
            r is Ok <==> valid_utf8(self@.stderr),
            r matches Ok(s) ==> s.spec_bytes() == self@.stderr,
    {
        core::str::from_utf8(self.stderr())
    }

    pub fn resource_usage(&self) -> (r: ResourceUsage)
        ensures
            r == self@.resource_usage,
    {
        self.resource_usage
    }
}

} // verus!
