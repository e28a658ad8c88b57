//! # Single-threaded executor
//!
//! This executor works *strictly* in a single-threaded environment. In order to spawn a task, use
//! [`spawn`]. To run the executor, use [`run`].
//!
//! A host keeps one [`Executor`] and one set of [`Conditions`] per thread and hands them to the
//! functions below. Those that run the executor return the first [`Action`] of the run loop; the
//! host drives it from there with [`run_internal`].
use futures::channel::oneshot;
use std::any::TypeId;
use std::future::Future;
use vstd::prelude::*;

pub use crate::conditions::Conditions;
pub use crate::executor::{Entry, Executor, ExecutorView, Slot};
pub use crate::handle::{deliver, joined, JoinError, JoinStep, TaskHandle};
pub use crate::run_loop::{run_internal, Action, Event, LoopState};
pub use crate::task::{Task, TypeInfo};

verus! {

/// Spawn a task
///
/// The host knows the type of the future under the given name. `package` turns the future, and the
/// half of a channel that its output has to be sent through (see [`deliver`]), into the form in which
/// the host stores futures. A future that is replaced because its token is still in use is returned
/// with the handle, for the host to drop when it has nothing borrowed.
pub fn spawn<Fut, T, F, P>(
    executor: &mut Executor<F>,
    fut: Fut,
    name: &'static str,
    package: P,
) -> (spawned: (TaskHandle<T>, Option<F>)) where
    Fut: Future<Output = T> + 'static,
    T: 'static,
    P: FnOnce(Fut, oneshot::Sender<T>) -> F,

    requires
        forall|sender: oneshot::Sender<T>| call_requires(package, (fut, sender)),
    ensures
        spawned.1 == old(executor)@.future_at(old(executor)@.counter),
        exists|type_id: TypeId, sender: oneshot::Sender<T>, future: F|
            {
                let type_info = TypeInfo { type_id: Some(type_id), name };
                &&& #[trigger] call_ensures(TypeId::of::<Fut>, (), type_id)
                &&& call_ensures(oneshot::channel::<T>, (), (sender, spawned.0.receiver()))
                &&& #[trigger] call_ensures(package, (fut, sender), future)
                &&& final(executor)@ == old(executor)@.registered(type_info, future)
                &&& spawned.0.task() == old(executor)@.next_task(type_info)
            },
{
    executor.spawn(fut, name, package)
}

/// What a blocking run has started with
#[verifier::reject_recursive_types(T)]
pub struct Started<T, F, W> {
    /// The handle of the future's task
    pub handle: TaskHandle<T>,
    /// A future that was replaced because its token is still in use, for the host to drop
    pub replaced: Option<F>,
    /// The first action of the run loop
    pub action: Action<F, W>,
}

/// Run tasks until completion of a future
///
/// This spawns the future and enters the loop as [`run_on`] does. Each time the loop has been left,
/// the host calls [`run_next`], which hands out the output or says how to go on.
///
/// ## Important
///
/// This function will yield to the environment if configured to do so.
///
pub fn run<Fut, T, F, W, P>(
    executor: &mut Executor<F>,
    conditions: &mut Conditions<W>,
    fut: Fut,
    name: &'static str,
    package: P,
) -> (started: Started<T, F, W>) where
    Fut: Future<Output = T>,
    P: FnOnce(Fut, oneshot::Sender<T>) -> F,

    requires
        forall|sender: oneshot::Sender<T>| call_requires(package, (fut, sender)),
    ensures
        started.replaced == old(executor)@.future_at(old(executor)@.counter),
        exists|sender: oneshot::Sender<T>, future: F|
            {
                let type_info = TypeInfo { type_id: None, name };
                let task = old(executor)@.next_task(type_info);
                let entered = LoopState {
                    executor: old(executor)@.registered(type_info, future),
                    conditions: Conditions {
                        until: Some(task),
                        until_satisfied: false,
                        yields: false,
                        ..*old(conditions)
                    },
                };
                &&& call_ensures(oneshot::channel::<T>, (), (sender, started.handle.receiver()))
                &&& #[trigger] call_ensures(package, (fut, sender), future)
                &&& started.handle.task() == task
                &&& entered.step(Event::Entered) == (
                    crate::run_loop::loop_state(final(executor), final(conditions)),
                    started.action,
                )
            },
{
    let (handle, replaced) = executor.spawn_non_static(fut, name, package);
    let action = run_on(executor, conditions, handle.task());
    Started { handle, replaced, action }
}

/// Goes on with a blocking run for a task
///
/// Requests to exit the loop are not heeded from here on, and the loop is entered, to leave it when
/// the task is complete.
pub fn run_on<F, W>(
    executor: &mut Executor<F>,
    conditions: &mut Conditions<W>,
    task: Task,
) -> (action: Action<F, W>)
    ensures
        (LoopState {
            executor: old(executor)@,
            conditions: Conditions {
                until: Some(task),
                until_satisfied: old(executor)@.completed(task),
                yields: false,
                ..*old(conditions)
            },
        }).step(Event::Entered) == (
            crate::run_loop::loop_state(final(executor), final(conditions)),
            action,
        ),
{
    conditions.yields = false;
    run_until(executor, conditions, task)
}

/// Decides what follows when the loop of a blocking run has been left
///
/// If the run is over then requests to exit the loop are heeded again. If the while function has made
/// the loop give up then it is entered again, since the future is not complete. The loop may have been
/// left before it could feed an executor that starves, so that is done first.
pub fn run_left<F, W>(
    executor: &mut Executor<F>,
    conditions: &mut Conditions<W>,
    done: bool,
) -> (again: Option<Action<F, W>>)
    ensures
        done ==> {
            &&& again is None
            &&& *final(conditions) == (Conditions { yields: true, ..*old(conditions) })
            &&& final(executor)@ == old(executor)@
        },
        !done ==> {
            &&& again is Some
            &&& crate::run_loop::loop_state(old(executor), old(conditions)).fed().step(
                Event::Entered,
            ) == (crate::run_loop::loop_state(final(executor), final(conditions)), again->0)
        },
{
    if done {
        conditions.yields = true;
        None
    } else {
        if executor.is_starving() {
            executor.refill();
        }
        Some(run_internal(executor, conditions, Event::Entered))
    }
}

/// What a blocking run has come to
pub enum RunStep<T, F, W> {
    /// Perform the action: the run goes on
    Perform(Action<F, W>),
    /// The future is complete, and this is its output
    Complete(T),
    /// The output was taken before, or can't be sent any more
    Canceled,
}

/// Goes on with a blocking run, or ends it, when its loop has been left
///
/// If the loop has been left because the run is over then the output is taken from the handle. It is
/// not there if a run that was nested in a poll has made the loop wait for another task: the run goes
/// on as [`run_on`] does. If the while function has made the loop give up then the run goes on as
/// [`run_left`] does.
pub fn run_next<T, F, W>(
    executor: &mut Executor<F>,
    conditions: &mut Conditions<W>,
    handle: &mut TaskHandle<T>,
    done: bool,
) -> (step: RunStep<T, F, W>)
    ensures
        final(handle).task() == old(handle).task(),
        !done ==> {
            &&& final(handle).receiver() == old(handle).receiver()
            &&& step is Perform
            &&& crate::run_loop::loop_state(old(executor), old(conditions)).fed().step(
                Event::Entered,
            ) == (
                crate::run_loop::loop_state(final(executor), final(conditions)),
                step->Perform_0,
            )
        },
        done ==> exists|
            receiver: &mut oneshot::Receiver<T>,
            received: Result<Option<T>, oneshot::Canceled>,
        |
            {
                let task = old(handle).task();
                let ended = final(executor)@ == old(executor)@ && *final(conditions) == (
                Conditions { yields: true, ..*old(conditions) });
                &&& *receiver == old(handle).receiver()
                &&& *final(receiver) == final(handle).receiver()
                &&& #[trigger] call_ensures(oneshot::Receiver::<T>::try_recv, (receiver,), received)
                &&& match received {
                    Ok(Some(value)) => ended && step == RunStep::<T, F, W>::Complete(value),
                    Err(_) => ended && step == RunStep::<T, F, W>::Canceled,
                    Ok(None) => step is Perform && (LoopState {
                        executor: old(executor)@,
                        conditions: Conditions {
                            until: Some(task),
                            until_satisfied: old(executor)@.completed(task),
                            yields: false,
                            ..*old(conditions)
                        },
                    }).step(Event::Entered) == (
                        crate::run_loop::loop_state(final(executor), final(conditions)),
                        step->Perform_0,
                    ),
                }
            },
{
    match run_left(executor, conditions, done) {
        Some(action) => RunStep::Perform(action),
        None => match handle.poll() {
            JoinStep::Ready(Ok(value)) => RunStep::Complete(value),
            JoinStep::Ready(Err(JoinError::Canceled)) => RunStep::Canceled,
            JoinStep::Pending => RunStep::Perform(run_on(executor, conditions, handle.task())),
        },
    }
}

/// Run the executor
///
/// The `until` promise and `while` function will remain unchanged. When the loop has been left, the host
/// calls [`start_left`] and goes on if that says so.
pub fn start<F, W>(executor: &mut Executor<F>, conditions: &mut Conditions<W>) -> (action: Action<
    F,
    W,
>)
    ensures
        crate::run_loop::loop_state(old(executor), old(conditions)).step(Event::Entered) == (
            crate::run_loop::loop_state(final(executor), final(conditions)),
            action,
        ),
{
    run_internal(executor, conditions, Event::Entered)
}

/// Decides what follows when the loop of a run under the conditions as they were has been left
///
/// `until` is the `until` task as it was when the run started. A run that was nested in a poll may have
/// made the loop wait for another task, and that one's completion has ended it. The loop is entered
/// again then, as [`until_left`] does if there was an `until` task, and until no task is left if there
/// was none.
pub fn start_left<F, W>(
    executor: &mut Executor<F>,
    conditions: &mut Conditions<W>,
    until: Option<Task>,
    done: bool,
) -> (again: Option<Action<F, W>>)
    ensures
        again is Some <==> done && match until {
            Some(task) => old(executor)@.futures.contains_key(task.token),
            None => !old(executor)@.futures.is_empty(),
        },
        match again {
            Some(action) => (LoopState {
                executor: old(executor)@,
                conditions: Conditions { until, until_satisfied: false, ..*old(conditions) },
            }).step(Event::Entered) == (
                crate::run_loop::loop_state(final(executor), final(conditions)),
                action,
            ),
            None => final(executor)@ == old(executor)@ && *final(conditions) == *old(conditions),
        },
{
    match until {
        Some(task) => until_left(executor, conditions, task, done),
        None => {
            if done && !executor.is_empty() {
                conditions.until = None;
                conditions.until_satisfied = false;
                Some(run_internal(executor, conditions, Event::Entered))
            } else {
                None
            }
        },
    }
}

/// Reset execution conditions
///
/// Unsets the until promise and the while fn as well as their resolution statuses.
pub fn reset_yield_conditions<W>(conditions: &mut Conditions<W>)
    ensures
        *final(conditions) == (Conditions {
            until: None,
            until_satisfied: false,
            while_fn: None,
            ..*old(conditions)
        }),
{
    conditions.until = None;
    conditions.until_satisfied = false;
    conditions.while_fn = None;
}

/// Run the executor until a promise resolves
///
/// It'll wait until passed task is complete, or until control has been yielded to the environment.
/// In this case the loop is left but the environment might schedule further execution of this
/// executor. There is nothing to wait for if the task has completed before. A task that was evicted
/// never completes. When the loop has been left, the host calls [`until_left`] and goes on if that says
/// so.
pub fn run_until<F, W>(
    executor: &mut Executor<F>,
    conditions: &mut Conditions<W>,
    until: Task,
) -> (action: Action<F, W>)
    ensures
        (LoopState {
            executor: old(executor)@,
            conditions: Conditions {
                until: Some(until),
                until_satisfied: old(executor)@.completed(until),
                ..*old(conditions)
            },
        }).step(Event::Entered) == (
            crate::run_loop::loop_state(final(executor), final(conditions)),
            action,
        ),
        old(executor)@.completed(until) ==> action == Action::<F, W>::Return(true)
            && final(conditions).until_satisfied && final(executor)@ == old(executor)@,
{
    let completed = executor.has_completed(&until);
    conditions.until = Some(until);
    conditions.until_satisfied = completed;
    run_internal(executor, conditions, Event::Entered)
}

/// Decides what follows when the loop of a run until a task has been left
///
/// A run that was nested in a poll may have made the loop wait for another task, and that one's
/// completion has ended it. The loop is entered again then, as [`run_until`] does, since the task that
/// this run waits for is still registered.
pub fn until_left<F, W>(
    executor: &mut Executor<F>,
    conditions: &mut Conditions<W>,
    until: Task,
    done: bool,
) -> (again: Option<Action<F, W>>)
    ensures
        again is Some <==> done && old(executor)@.futures.contains_key(until.token),
        match again {
            Some(action) => (LoopState {
                executor: old(executor)@,
                conditions: Conditions {
                    until: Some(until),
                    until_satisfied: false,
                    ..*old(conditions)
                },
            }).step(Event::Entered) == (
                crate::run_loop::loop_state(final(executor), final(conditions)),
                action,
            ),
            None => final(executor)@ == old(executor)@ && *final(conditions) == *old(conditions),
        },
{
    if done && executor.is_registered(&until) {
        Some(run_until(executor, conditions, until))
    } else {
        None
    }
}

/// Run the executor while a function returns true
///
/// The function passed as `condition` will run on every loop of the executor. The executor will
/// yield anytime the `condition` evaluates to `false`. You can restart execution by issuing another
/// `run` command. When the loop has been left, the host calls [`start_left`] and goes on if that says
/// so.
pub fn run_while<F, W>(
    executor: &mut Executor<F>,
    conditions: &mut Conditions<W>,
    condition: W,
) -> (action: Action<F, W>)
    ensures
        (LoopState {
            executor: old(executor)@,
            conditions: Conditions { while_fn: Some(Slot::Held(condition)), ..*old(conditions) },
        }).step(Event::Entered) == (
            crate::run_loop::loop_state(final(executor), final(conditions)),
            action,
        ),
{
    conditions.while_fn = Some(Slot::Held(condition));
    run_internal(executor, conditions, Event::Entered)
}

/// Returns the number of tasks currently registered with the executor
#[must_use]
pub fn tasks_count<F>(executor: &Executor<F>) -> (count: usize)
    ensures
        count == executor@.futures.len(),
{
    executor.tasks_count()
}

/// Returns the number of tasks currently in the queue to execute
#[must_use]
pub fn queued_tasks_count<F>(executor: &Executor<F>) -> (count: usize)
    ensures
        count == executor@.queue.len(),
{
    executor.queued_tasks_count()
}

/// Returns all tasks that haven't completed yet
#[must_use]
pub fn tasks<F>(executor: &Executor<F>) -> (tasks: Vec<Task>)
    ensures
        executor@.futures.dom().finite(),
        tasks@ == executor@.tasks(),
        tasks@.len() == executor@.futures.len(),
        forall|i: int, j: int| 0 <= i < j < tasks@.len() ==> tasks@[i].token < tasks@[j].token,
        forall|task: Task| #[trigger]
            tasks@.contains(task) <==> executor@.futures.contains_key(task.token)
                && executor@.futures[task.token].type_info == task.type_info,
{
    executor.tasks()
}

/// Returns tokens for queued tasks
#[must_use]
pub fn queued_tasks<F>(executor: &Executor<F>) -> (tasks: Vec<Task>)
    ensures
        tasks@ == executor@.queue,
{
    executor.queued_tasks()
}

/// Removes all tasks from the executor
///
/// What is returned holds the futures of the removed tasks, for the host to drop when it has nothing
/// borrowed.
///
/// ## Caution
///
/// Evicted tasks won't be able to get re-scheduled when they will be woken up. Tokens go on from
/// where they were, so that holds until the tokens have wrapped and come by theirs again. Nor does a
/// run that waits for one of them find it completed.
pub fn evict_all<F>(executor: &mut Executor<F>) -> (evicted: Executor<F>)
    ensures
        final(executor)@ == (ExecutorView {
            counter: old(executor)@.counter,
            evictees: old(executor)@.evictees.union(old(executor)@.futures.dom()),
            ..ExecutorView::<F>::empty()
        }),
        evicted@ == (ExecutorView { evictees: Set::empty(), ..old(executor)@ }),
{
    executor.evict_all()
}

/// Sets the token that the next task gets
pub fn set_counter<F>(executor: &mut Executor<F>, counter: usize)
    ensures
        final(executor)@ == (ExecutorView { counter, ..old(executor)@ }),
{
    executor.set_counter(counter);
}

} // verus!
