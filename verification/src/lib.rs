//! The decision core of a command execution engine.
//!
//! Every rule the engine follows is stated here as a contract and proved:
//! the task queue and its backpressure, the permit counter that throttles
//! concurrent executions, the timeout state machine of a single process,
//! the stage-by-stage run of a pipeline, the free list of resident workers
//! and the line protocol spoken with them.  Threads, processes and pipes
//! are driven by the caller, who performs the actions these functions
//! return and reports back what happened.

pub mod backend;
pub mod clock;
pub mod config;
pub mod error;
pub mod escape;
pub mod execution_mode;
pub mod executor;
pub mod output;
pub mod pipeline;
pub mod pool;
pub mod pool_seg;
pub mod process_pool;
pub mod protocol;
pub mod semaphore;
pub mod task_handle;
pub mod task_status;
pub mod text;
pub mod thread_executor;

pub use crate::backend::{
    Backend, BackendConfig, BackendFactory, BackendType, Dispatch, ExecutionBackend,
    InlineBackend, ProcessBackend, ProcessPoolBackend, ThreadPoolBackend,
};
pub use crate::config::CommandConfig;
pub use crate::error::{ExecuteError, IoErrorKind, IoFailure};
pub use crate::escape::{escape, unescape};
pub use crate::execution_mode::{ExecutionConfig, ExecutionMode};
pub use crate::executor::{
    execute_command, process_step, CommandExecutor, ProcessAction, ProcessEvent, ProcessPhase,
    ProcessRun, StdCommandExecutor,
};
pub use crate::output::ProcessOutput;
pub use crate::pipeline::{Pipeline, PipelineExecutor, PipelineRun, PipelineStage, PipelineStep};
pub use crate::pool::{
    BatchOutcome, CommandPool, ExecutorChoice, LaunchPlan, PushOutcome, WorkerAction,
};
pub use crate::pool_seg::CommandPoolSeg;
pub use crate::process_pool::{PoolStep, ProcessPool};
pub use crate::protocol::{
    encode_failure, encode_request, encode_response, parse_request, parse_response, WorkerRequest,
};
pub use crate::semaphore::{Semaphore, SemaphoreGuard};
pub use crate::task_handle::{Delivery, TaskHandle, TaskWithResult};
pub use crate::task_status::{TaskIdGenerator, TaskStatus, TaskStatusTracker};
pub use crate::thread_executor::{
    CommandTask, ThreadAction, ThreadExecutor, ThreadModeExecutor, ThreadTask,
};
