//! # Yielding async executor
//!
//! A single-threaded executor for asynchronous tasks that can be configured to yield to its
//! environment in arbitrary ways.
//!
//! The executor never polls a future itself. A polled future may call back into the executor that
//! is polling it (to spawn, to wake, to count, to evict), so no part of the executor can be borrowed
//! across a poll. Nor does a run have to end. The run loop is therefore a step function,
//! [`single_threaded::run_internal`]: it takes an event, decides, and returns the action that the host
//! has to perform next.
pub mod task;

pub mod handle;

pub mod token_order;

pub mod executor;

pub mod conditions;

pub mod run_loop;

pub mod single_threaded;

pub mod laws;

pub mod rounds;
