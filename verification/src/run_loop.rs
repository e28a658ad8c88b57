//! The run loop, one decision at a time.
//!
//! A host drives the loop. It starts with [`Event::Entered`], performs the [`Action`] that
//! [`run_internal`] returns, reports what came of it as the next event, and goes on until the
//! action is [`Action::Return`]. Nothing is borrowed while the host performs an action, so what it
//! polls or calls may use the executor and the conditions freely.
use crate::conditions::Conditions;
use crate::executor::{Executor, ExecutorView, Slot};
use crate::task::Task;
use vstd::prelude::*;

verus! {

/// What the host reports to the loop
pub enum Event {
    /// The loop was entered
    Entered,
    /// The last turn is over
    Resumed,
    /// The task was polled, and its future was taken back
    Polled { task: Task, ready: bool },
    /// The while function was called, and was taken back
    Checked { proceed: bool },
}

/// What the host has to do next
pub enum Action<F, W> {
    /// Poll the future of the task
    Poll { task: Task, future: F },
    /// Call the while function
    Check { condition: W },
    /// Go on with the next turn
    Again,
    /// Leave the loop
    ///
    /// `true` if the `until` task completed, or there is no `until` task and no task is left. The
    /// `until` task is the one that was set last, which may have been during a poll. `false` if loop
    /// exit was requested.
    Return(bool),
}

/// What the loop decides on.
#[verifier::ext_equal]
pub struct LoopState<F, W> {
    pub executor: ExecutorView<F>,
    pub conditions: Conditions<W>,
}

impl<F, W> LoopState<F, W> {
    /// With what ends a run marked as having come about, or as still to come.
    pub open spec fn with_satisfied(self, satisfied: bool) -> Self {
        LoopState {
            conditions: Conditions { until_satisfied: satisfied, ..self.conditions },
            ..self
        }
    }

    /// Whether there is an `until` task and it has completed.
    pub open spec fn resolved(self) -> bool {
        self.conditions.until is Some && self.conditions.until_satisfied
    }

    /// Whether the run is over: the `until` task has completed, or there is none and no task is left.
    pub open spec fn over(self) -> bool {
        self.resolved() || (self.conditions.until is None && self.executor.futures.is_empty())
    }

    /// With every registered task queued, if none was.
    pub open spec fn fed(self) -> Self {
        if self.executor.starves() {
            LoopState { executor: self.executor.refilled(), ..self }
        } else {
            self
        }
    }

    /// With the last task of the queue taken from it.
    pub open spec fn popped(self) -> Self {
        LoopState {
            executor: ExecutorView { queue: self.executor.queue.drop_last(), ..self.executor },
            ..self
        }
    }

    /// A turn starts: the last task of the queue is polled, if there is one to poll.
    pub open spec fn turn(self) -> (Self, Action<F, W>) {
        if self.executor.queue.len() == 0 {
            self.settle()
        } else {
            let task = self.executor.queue.last();
            match self.executor.future_at(task.token) {
                Some(future) => (
                    LoopState {
                        executor: self.popped().executor.with_slot(task.token, Slot::Lent),
                        ..self
                    },
                    Action::Poll { task, future },
                ),
                None => self.popped().settle(),
            }
        }
    }

    /// A task was polled: what ends the run has come about if it is the one that the run waits for.
    pub open spec fn polled(self, task: Task, ready: bool) -> (Self, Action<F, W>) {
        if ready && self.conditions.awaits(task) {
            self.with_satisfied(true).settle()
        } else {
            self.settle()
        }
    }

    /// There is nothing more to poll in this turn: the while function is asked, if there is one.
    pub open spec fn settle(self) -> (Self, Action<F, W>) {
        match self.conditions.while_fn_at_hand() {
            Some(condition) => (
                LoopState {
                    conditions: Conditions { while_fn: Some(Slot::Lent), ..self.conditions },
                    ..self
                },
                Action::Check { condition },
            ),
            None => self.conclude(true),
        }
    }

    /// A turn ends: the loop is left if the run is over or if that was requested, and otherwise an
    /// executor that starves is fed.
    pub open spec fn conclude(self, proceed: bool) -> (Self, Action<F, W>) {
        let heard = LoopState {
            conditions: Conditions { exit_loop: false, ..self.conditions },
            ..self
        };
        if self.over() {
            (self.with_satisfied(true), Action::Return(true))
        } else if !proceed || (self.conditions.exit_loop && self.conditions.yields) {
            (heard, Action::Return(false))
        } else {
            (heard.fed(), Action::Again)
        }
    }

    /// One decision of the loop. When a run starts, what ends it is still to come, unless its `until`
    /// task has completed before.
    pub open spec fn step(self, event: Event) -> (Self, Action<F, W>) {
        match event {
            Event::Entered => if self.resolved() {
                (self, Action::Return(true))
            } else {
                self.with_satisfied(false).turn()
            },
            Event::Resumed => self.turn(),
            Event::Polled { task, ready } => self.polled(task, ready),
            Event::Checked { proceed } => self.conclude(proceed),
        }
    }
}

/// What the loop decides on, read off the executor and the conditions.
pub open spec fn loop_state<F, W>(executor: &Executor<F>, conditions: &Conditions<W>) -> LoopState<
    F,
    W,
> {
    LoopState { executor: executor@, conditions: *conditions }
}

fn turn<F, W>(executor: &mut Executor<F>, conditions: &mut Conditions<W>) -> (action: Action<F, W>)
    ensures
        loop_state(old(executor), old(conditions)).turn() == (
            loop_state(final(executor), final(conditions)),
            action,
        ),
{
    match executor.pop() {
        Some(task) => match executor.lend(&task) {
            Some(future) => Action::Poll { task, future },
            None => settle(executor, conditions),
        },
        None => settle(executor, conditions),
    }
}

fn settle<F, W>(executor: &mut Executor<F>, conditions: &mut Conditions<W>) -> (action: Action<
    F,
    W,
>)
    ensures
        loop_state(old(executor), old(conditions)).settle() == (
            loop_state(final(executor), final(conditions)),
            action,
        ),
{
    match conditions.lend_while_fn() {
        Some(condition) => Action::Check { condition },
        None => conclude(executor, conditions, true),
    }
}

fn conclude<F, W>(
    executor: &mut Executor<F>,
    conditions: &mut Conditions<W>,
    proceed: bool,
) -> (action: Action<F, W>)
    ensures
        loop_state(old(executor), old(conditions)).conclude(proceed) == (
            loop_state(final(executor), final(conditions)),
            action,
        ),
{
    let over = if conditions.until.is_some() {
        conditions.until_satisfied
    } else {
        executor.is_empty()
    };
    if over {
        conditions.until_satisfied = true;
        return Action::Return(true);
    }
    let exit_requested = conditions.take_exit_request();
    if exit_requested || !proceed {
        return Action::Return(false);
    }
    if executor.is_starving() {
        executor.refill();
    }
    Action::Again
}

/// Takes one decision of the run loop
pub fn run_internal<F, W>(
    executor: &mut Executor<F>,
    conditions: &mut Conditions<W>,
    event: Event,
) -> (action: Action<F, W>)
    ensures
        loop_state(old(executor), old(conditions)).step(event) == (
            loop_state(final(executor), final(conditions)),
            action,
        ),
{
    match event {
        Event::Entered => {
            if conditions.until.is_some() && conditions.until_satisfied {
                return Action::Return(true);
            }
            conditions.until_satisfied = false;
            turn(executor, conditions)
        },
        Event::Resumed => turn(executor, conditions),
        Event::Polled { task, ready } => {
            if ready && conditions.is_until(&task) {
                conditions.until_satisfied = true;
            }
            settle(executor, conditions)
        },
        Event::Checked { proceed } => conclude(executor, conditions, proceed),
    }
}

} // verus!
