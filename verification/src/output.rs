//! What a finished process leaves behind.

use vstd::prelude::*;

verus! {

/// The exit code reported for a process that ended without one, such as a
/// process killed by a signal.
pub const NO_EXIT_CODE: i32 = -1;

/// The result of running a process to its end: how it exited and what it
/// wrote to its two captured streams.
#[derive(Debug)]
pub struct ProcessOutput {
    /// The exit code, or `None` where the process ended without one.
    pub exit_code: Option<i32>,
    /// Everything written to standard output.
    pub stdout: Vec<u8>,
    /// Everything written to standard error.
    pub stderr: Vec<u8>,
}

/// The mathematical content of a [`ProcessOutput`].
pub struct ProcessOutputView {
    pub exit_code: Option<i32>,
    pub stdout: Seq<u8>,
    pub stderr: Seq<u8>,
}

impl View for ProcessOutput {
    type V = ProcessOutputView;

    open spec fn view(&self) -> ProcessOutputView {
        ProcessOutputView {
            exit_code: self.exit_code,
            stdout: self.stdout@,
            stderr: self.stderr@,
        }
    }
}

impl ProcessOutputView {
    /// A process succeeded exactly when it exited with code zero.
    pub open spec fn success(self) -> bool {
        self.exit_code == Some(0i32)
    }

    /// The exit code as it is reported to others: the code itself, or
    /// [`NO_EXIT_CODE`] where there is none.
    pub open spec fn reported_code(self) -> i32 {
        match self.exit_code {
            Some(code) => code,
            None => NO_EXIT_CODE,
        }
    }
}

impl ProcessOutput {
    /// Whether the process exited with code zero.
    pub fn success(&self) -> (ok: bool)
        ensures
            ok == self@.success(),
    {
        match self.exit_code {
            Some(code) => code == 0,
            None => false,
        }
    }

    /// The exit code to report: the code itself, or [`NO_EXIT_CODE`].
    pub fn reported_code(&self) -> (code: i32)
        ensures
            code == self@.reported_code(),
    {
        match self.exit_code {
            Some(code) => code,
            None => NO_EXIT_CODE,
        }
    }
}

impl Clone for ProcessOutput {
    fn clone(&self) -> (copy: Self)
        ensures
            copy@ == self@,
    {
        ProcessOutput {
            exit_code: self.exit_code,
            stdout: self.stdout.clone(),
            stderr: self.stderr.clone(),
        }
    }
}

} // verus!
