//! Handles on results that arrive later.
//!
//! The result of a task travels from the thread that ran it to whoever
//! holds the handle.  The caller owns the channel; what it finds there it
//! shows to the handle, which says what that means.

use crate::error::{ExecuteError, IoErrorKind};
use crate::output::ProcessOutput;
use vstd::prelude::*;

verus! {

/// What a look into the channel of a handle found.
#[derive(Debug)]
pub enum Delivery {
    /// The result of the task.
    Arrived(Result<ProcessOutput, ExecuteError>),
    /// Nothing yet; the task may still send its result.
    Pending,
    /// Nothing, and nothing will come: the sending side is gone.
    Disconnected,
}

/// The receiving side of the result of one task.
#[derive(Debug, Clone, Copy)]
pub struct TaskHandle {
    id: u64,
}

/// The sending side of the result of one task.
#[derive(Debug, Clone, Copy)]
pub struct TaskWithResult {
    /// The number of the task.
    pub id: u64,
}

impl TaskHandle {
    /// The number of the task.
    pub closed spec fn task(self) -> u64 {
        self.id
    }

    /// A handle for the task numbered `id`.
    pub fn new(id: u64) -> (handle: Self)
        ensures
            handle.task() == id,
    {
        TaskHandle { id }
    }

    /// The number of the task.
    pub fn id(&self) -> (id: u64)
        ensures
            id == self.task(),
    {
        self.id
    }

    /// What waiting for the result gave: the result that was `received`,
    /// or, where the channel closed without one, an I/O error that reads
    /// "failed to receive task result".
    pub fn wait(&self, received: Option<Result<ProcessOutput, ExecuteError>>) -> (result: Result<
        ProcessOutput,
        ExecuteError,
    >)
        ensures
            match received {
                Some(sent) => result == sent,
                None => result matches Err(error) && error.is_io(
                    IoErrorKind::Other,
                    "failed to receive task result"@,
                ),
            },
    {
        match received {
            Some(sent) => sent,
            None => Err(ExecuteError::io(IoErrorKind::Other, "failed to receive task result")),
        }
    }

    /// What a look into the channel means.  A result that arrived is handed
    /// on, an output as `Some` and an error as that error.  Nothing yet is
    /// `None`.  A channel whose sending side is gone is an I/O error that
    /// reads "task result channel disconnected".
    pub fn try_get(&self, delivery: Delivery) -> (result: Result<
        Option<ProcessOutput>,
        ExecuteError,
    >)
        ensures
            match delivery {
                Delivery::Arrived(Ok(output)) => result == Ok::<
                    Option<ProcessOutput>,
                    ExecuteError,
                >(Some(output)),
                Delivery::Arrived(Err(error)) => result == Err::<
                    Option<ProcessOutput>,
                    ExecuteError,
                >(error),
                Delivery::Pending => result == Ok::<Option<ProcessOutput>, ExecuteError>(None),
                Delivery::Disconnected => result matches Err(error) && error.is_io(
                    IoErrorKind::Other,
                    "task result channel disconnected"@,
                ),
            },
    {
        match delivery {
            Delivery::Arrived(Ok(output)) => Ok(Some(output)),
            Delivery::Arrived(Err(error)) => Err(error),
            Delivery::Pending => Ok(None),
            Delivery::Disconnected => Err(
                ExecuteError::io(IoErrorKind::Other, "task result channel disconnected"),
            ),
        }
    }

    /// Whether the task is over, by a look into the channel: it is where an
    /// output arrived and is not where nothing has arrived yet; an error
    /// that arrived, and a channel whose sending side is gone, are errors
    /// as for [`TaskHandle::try_get`].  The result that the look took out
    /// of the channel is used up.
    pub fn is_done(&self, delivery: Delivery) -> (result: Result<bool, ExecuteError>)
        ensures
            match delivery {
                Delivery::Arrived(Ok(_)) => result == Ok::<bool, ExecuteError>(true),
                Delivery::Arrived(Err(error)) => result == Err::<bool, ExecuteError>(error),
                Delivery::Pending => result == Ok::<bool, ExecuteError>(false),
                Delivery::Disconnected => result matches Err(error) && error.is_io(
                    IoErrorKind::Other,
                    "task result channel disconnected"@,
                ),
            },
    {
        match self.try_get(delivery) {
            Ok(Some(_)) => Ok(true),
            Ok(None) => Ok(false),
            Err(error) => Err(error),
        }
    }
}

impl TaskWithResult {
    /// The two sides for the task numbered `id`.
    pub fn new(id: u64) -> (sides: (Self, TaskHandle))
        ensures
            sides.0.id == id,
            sides.1.task() == id,
    {
        (TaskWithResult { id }, TaskHandle::new(id))
    }
}

} // verus!
