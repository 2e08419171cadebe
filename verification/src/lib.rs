//! An embeddable, in-process worker pool: a fixed set of operating-system
//! threads consumes user-supplied units of work from shared queues, with
//! support for one-shot tasks, periodic tasks, structured scopes and
//! cooperative shutdown.
//!
//! This crate holds the scheduling and task-lifecycle core as verified,
//! sequential state transitions over plain data: the result-cell state
//! machine, the ready queue and timer, the dispatcher, the worker-step
//! decisions, the scope counter and the thread-local context rules. The
//! thread, parking and panic-catching glue that drives these transitions
//! lives outside the verified library.

pub mod builder;
pub mod context;
pub mod dispatcher;
pub mod driver;
pub mod error;
pub mod join;
pub mod periodic;
pub mod runnable;
pub mod scope;
pub mod state;
pub mod timer;
pub mod wait;
pub mod worker;
