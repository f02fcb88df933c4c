//! The task record: one external command and how to run it.

use crate::clock::{duration_secs, duration_subsec_nanos};
use std::time::Duration;
use vstd::prelude::*;

verus! {

/// Seconds a command may run when no other limit was asked for.
pub const DEFAULT_TIMEOUT_SECS: u64 = 10;

/// Whether `limit` is exactly `secs` seconds long.
pub open spec fn is_whole_seconds(limit: Duration, secs: u64) -> bool {
    duration_secs(limit) == secs && duration_subsec_nanos(limit) == 0
}

/// The mathematical content of a [`CommandConfig`].
pub struct CommandConfigView {
    pub program: Seq<char>,
    pub args: Seq<Seq<char>>,
    pub working_dir: Option<Seq<char>>,
    pub timeout: Option<Duration>,
}

/// One external command: the program, its arguments, where to run it and
/// for how long.  A missing timeout means "wait for as long as it takes".
#[derive(Debug)]
pub struct CommandConfig {
    program: String,
    args: Vec<String>,
    working_dir: Option<String>,
    timeout: Option<Duration>,
}

impl View for CommandConfig {
    type V = CommandConfigView;

    closed spec fn view(&self) -> CommandConfigView {
        CommandConfigView {
            program: self.program@,
            args: self.args.deep_view(),
            working_dir: match self.working_dir {
                Some(dir) => Some(dir@),
                None => None,
            },
            timeout: self.timeout,
        }
    }
}

impl CommandConfig {
    /// A command with the given program and arguments, no working
    /// directory, and the default timeout of ten seconds.
    pub fn new(program: &str, args: Vec<String>) -> (config: Self)
        ensures
            config@.program == program@,
            config@.args == args.deep_view(),
            config@.working_dir is None,
            config@.timeout matches Some(limit) && is_whole_seconds(limit, DEFAULT_TIMEOUT_SECS),
    {
        CommandConfig {
            program: program.to_owned(),
            args,
            working_dir: None,
            timeout: Some(Duration::from_secs(DEFAULT_TIMEOUT_SECS)),
        }
    }

    /// The same command, run in `dir`.
    pub fn with_working_dir(self, dir: &str) -> (config: Self)
        ensures
            config@ == (CommandConfigView { working_dir: Some(dir@), ..self@ }),
    {
        CommandConfig {
            program: self.program,
            args: self.args,
            working_dir: Some(dir.to_owned()),
            timeout: self.timeout,
        }
    }

    /// The same command, allowed to run for `timeout`.
    pub fn with_timeout(self, timeout: Duration) -> (config: Self)
        ensures
            config@ == (CommandConfigView { timeout: Some(timeout), ..self@ }),
    {
        CommandConfig {
            program: self.program,
            args: self.args,
            working_dir: self.working_dir,
            timeout: Some(timeout),
        }
    }

    /// The same command, allowed to run for as long as it takes.
    pub fn without_timeout(self) -> (config: Self)
        ensures
            config@ == (CommandConfigView { timeout: None, ..self@ }),
    {
        CommandConfig {
            program: self.program,
            args: self.args,
            working_dir: self.working_dir,
            timeout: None,
        }
    }

    /// The program to run.
    pub fn program(&self) -> (program: &str)
        ensures
            program@ == self@.program,
    {
        self.program.as_str()
    }

    /// The arguments handed to the program, in order.
    pub fn args(&self) -> (args: &[String])
        ensures
            args.deep_view() == self@.args,
    {
        let args = self.args.as_slice();
        assert(args.deep_view() =~= self.args.deep_view());
        args
    }

    /// The directory to run in, if one was set.
    pub fn working_dir(&self) -> (dir: Option<&str>)
        ensures
            dir is Some == self@.working_dir is Some,
            dir matches Some(d) ==> self@.working_dir == Some(d@),
    {
        match &self.working_dir {
            Some(dir) => Some(dir.as_str()),
            None => None,
        }
    }

    /// The time limit, if there is one.
    pub fn timeout(&self) -> (timeout: Option<Duration>)
        ensures
            timeout == self@.timeout,
    {
        self.timeout
    }
}

impl Clone for CommandConfig {
    fn clone(&self) -> (copy: Self)
        ensures
            copy@ == self@,
    {
        let args = self.args.clone();
        assert(args.deep_view() =~= self.args.deep_view());
        CommandConfig {
            program: self.program.clone(),
            args,
            working_dir: match &self.working_dir {
                Some(dir) => Some(dir.clone()),
                None => None,
            },
            timeout: self.timeout,
        }
    }
}

} // verus!
