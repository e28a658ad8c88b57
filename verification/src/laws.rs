//! What holds of the executor and its run loop as a whole.
use crate::conditions::Conditions;
use crate::executor::{lemma_finitely_many_tasks, next_token, Executor, ExecutorView, Slot};
use crate::handle::{join_step, JoinError, JoinStep};
use crate::run_loop::{loop_state, Action, Event, LoopState};
use crate::task::{token_order, Task, TypeInfo};
use crate::token_order::{in_token_order, lemma_in_token_order};
use futures::channel::oneshot;
use std::cmp::Ordering;
use vstd::prelude::*;
use vstd::std_specs::cmp::{PartialEqSpec, PartialOrdSpec};

verus! {

// Tokens and tasks
/// The token that is given out `count` tasks after `token`.
pub open spec fn nth_token(token: usize, count: nat) -> usize
    decreases count,
{
    if count == 0 {
        token
    } else {
        next_token(nth_token(token, (count - 1) as nat))
    }
}

proof fn lemma_nth_token_value(token: usize, count: nat)
    requires
        count <= usize::MAX,
    ensures
        nth_token(token, count) == if token + count <= usize::MAX {
            token + count
        } else {
            token + count - usize::MAX - 1
        },
    decreases count,
{
    if count > 0 {
        lemma_nth_token_value(token, (count - 1) as nat);
    }
}

/// Tokens wrap back to the beginning when they are exhausted, and tasks that are registered one
/// after the other have different tokens unless every token has been given out in between.
pub proof fn law_tokens_differ(token: usize, count: nat)
    requires
        0 < count <= usize::MAX,
    ensures
        nth_token(token, count) != token,
        next_token(usize::MAX) == 0,
{
    lemma_nth_token_value(token, count);
}

/// Registration gives out the token at the counter and moves the counter on. Waking a task, lending
/// and taking back its future, and the run loop leave the counter alone.
pub proof fn law_registration_moves_the_counter<F, W>(
    state: LoopState<F, W>,
    type_info: TypeInfo,
    future: F,
    task: Task,
    ready: bool,
    event: Event,
)
    ensures
        state.executor.next_task(type_info).token == state.executor.counter,
        state.executor.registered(type_info, future).counter == next_token(state.executor.counter),
        state.executor.enqueued(task).counter == state.executor.counter,
        state.executor.taken_back(task, future, ready).counter == state.executor.counter,
        state.step(event).0.executor.counter == state.executor.counter,
{
}

/// The order of tasks is a total order, and agrees with their equality.
pub proof fn law_task_order(a: Task, b: Task, c: Task)
    ensures
        token_order(a.token, a.token) == Ordering::Equal,
        token_order(a.token, b.token) == Ordering::Equal <==> a.token == b.token,
        token_order(a.token, b.token) == Ordering::Less <==> token_order(b.token, a.token)
            == Ordering::Greater,
        token_order(a.token, b.token) == Ordering::Less && token_order(b.token, c.token)
            == Ordering::Less ==> token_order(a.token, c.token) == Ordering::Less,
{
}

// Registration, waking and eviction
/// A registered task is listed and queued, it is polled before all others, and no other registered
/// task is affected unless it has the same token.
pub proof fn law_new_task_is_polled_first<F, W>(
    state: LoopState<F, W>,
    type_info: TypeInfo,
    future: F,
)
    ensures
        ({
            let task = state.executor.next_task(type_info);
            let grown = LoopState {
                executor: state.executor.registered(type_info, future),
                ..state
            };
            &&& grown.executor.futures.dom() == state.executor.futures.dom().insert(task.token)
            &&& grown.turn().1 == Action::<F, W>::Poll { task, future }
            &&& grown.turn().0.executor.queue == state.executor.queue
            &&& forall|token: usize|
                token != task.token && state.executor.futures.contains_key(token)
                    ==> #[trigger] grown.executor.futures[token] == state.executor.futures[token]
        }),
{
    let grown = state.executor.registered(type_info, future);
    assert(grown.queue.drop_last() =~= state.executor.queue);
}

/// A blocking run polls the future that it was given before all others, whether or not an earlier run
/// is over. It is over when that future is ready and not before.
pub proof fn law_blocking_run_waits_for_its_future<F, W>(
    state: LoopState<F, W>,
    type_info: TypeInfo,
    future: F,
    event: Event,
)
    ensures
        ({
            let task = state.executor.next_task(type_info);
            let conditions = Conditions {
                until: Some(task),
                until_satisfied: false,
                yields: false,
                ..state.conditions
            };
            let entered = LoopState {
                executor: state.executor.registered(type_info, future),
                conditions,
            };
            let later = (LoopState { conditions, ..state }).step(event);
            &&& entered.step(Event::Entered).1 == Action::<F, W>::Poll { task, future }
            &&& later.0.over() <==> (event matches Event::Polled { task: polled, ready } && ready
                && polled.token == task.token)
            &&& later.1 == Action::<F, W>::Return(true) ==> later.0.over()
        }),
{
}

/// A registered task that is woken is queued behind all others: tasks are polled in the order in
/// which they are woken, after those that were queued before.
pub proof fn law_wakes_are_served_in_order<F>(executor: ExecutorView<F>, first: Task, second: Task)
    requires
        executor.futures.contains_key(first.token),
        executor.futures.contains_key(second.token),
    ensures
        executor.enqueued(first).enqueued(second).queue == seq![second, first] + executor.queue,
        executor.enqueued(first).enqueued(second).futures == executor.futures,
{
    assert(seq![second] + (seq![first] + executor.queue) =~= seq![second, first] + executor.queue);
}

/// Tasks that are not registered, which is so once they have completed or were evicted, cannot be
/// queued. Nor does a task that is evicted while its future is polled come back when the poll is over:
/// if the future was ready then the task has completed after all, and nothing else changes.
pub proof fn law_unregistered_tasks_dont_requeue<F>(
    executor: ExecutorView<F>,
    task: Task,
    future: F,
)
    requires
        !executor.futures.contains_key(task.token),
    ensures
        executor.enqueued(task) == executor,
        executor.taken_back(task, future, false) == executor,
        executor.taken_back(task, future, true) == (ExecutorView {
            evictees: executor.evictees.remove(task.token),
            ..executor
        }),
        executor.taken_back(task, future, true).completed(task),
{
}

/// After the registration of one future after the other.
pub open spec fn all_registered<F>(
    executor: ExecutorView<F>,
    futures: Seq<(TypeInfo, F)>,
) -> ExecutorView<F>
    decreases futures.len(),
{
    if futures.len() == 0 {
        executor
    } else {
        all_registered(executor, futures.drop_last()).registered(futures.last().0, futures.last().1)
    }
}

proof fn lemma_nth_token_of_nth(token: usize, first: nat, second: nat)
    ensures
        nth_token(nth_token(token, first), second) == nth_token(token, first + second),
    decreases second,
{
    if second > 0 {
        lemma_nth_token_of_nth(token, first, (second - 1) as nat);
    }
}

proof fn lemma_token_not_reissued<F>(
    executor: ExecutorView<F>,
    token: usize,
    issued: nat,
    futures: Seq<(TypeInfo, F)>,
)
    requires
        nth_token(token, issued) == executor.counter,
        0 < issued,
        issued + futures.len() <= usize::MAX + 1,
        !executor.futures.contains_key(token),
    ensures
        all_registered(executor, futures).counter == nth_token(executor.counter, futures.len()),
        !all_registered(executor, futures).futures.contains_key(token),
    decreases futures.len(),
{
    if futures.len() > 0 {
        let before = all_registered(executor, futures.drop_last());
        lemma_token_not_reissued(executor, token, issued, futures.drop_last());
        lemma_nth_token_of_nth(token, issued, (futures.len() - 1) as nat);
        law_tokens_differ(token, (issued + futures.len() - 1) as nat);
        assert(before.counter != token);
    }
}

/// Evicted tasks cannot get re-scheduled when they are woken, right after the eviction or when any
/// number of tasks was registered since, until the tokens have wrapped and come by theirs again:
/// `issued` is how many tokens had been given out since the evicted task got its own.
pub proof fn law_evicted_tasks_dont_requeue<F>(
    executor: ExecutorView<F>,
    task: Task,
    issued: nat,
    futures: Seq<(TypeInfo, F)>,
)
    requires
        nth_token(task.token, issued) == executor.counter,
        0 < issued,
        issued + futures.len() <= usize::MAX + 1,
    ensures
        executor.evicted().enqueued(task) == executor.evicted(),
        all_registered(executor.evicted(), futures).enqueued(task) == all_registered(
            executor.evicted(),
            futures,
        ),
{
    lemma_token_not_reissued(executor.evicted(), task.token, issued, futures);
}

/// The registered tasks are listed in the order of their tokens, each of them once.
pub proof fn law_tasks_are_listed_once<F>(executor: ExecutorView<F>)
    requires
        executor.futures.dom().finite(),
    ensures
        executor.tasks().len() == executor.futures.len(),
        forall|i: int, j: int|
            0 <= i < j < executor.tasks().len() ==> executor.tasks()[i].token
                < executor.tasks()[j].token,
        forall|i: int|
            0 <= i < executor.tasks().len() ==> executor.futures.contains_key(
                (#[trigger] executor.tasks()[i]).token,
            ) && executor.tasks()[i] == executor.task_at(executor.tasks()[i].token),
        forall|token: usize|
            executor.futures.contains_key(token) ==> executor.tasks().contains(
                #[trigger] executor.task_at(token),
            ),
{
    let tokens = in_token_order(executor.futures.dom());
    lemma_in_token_order(executor.futures.dom());
    assert forall|i: int| 0 <= i < executor.tasks().len() implies executor.futures.contains_key(
        (#[trigger] executor.tasks()[i]).token,
    ) by {
        assert(tokens.to_set().contains(tokens[i]));
    }
    assert forall|token: usize| executor.futures.contains_key(token) implies executor.tasks().contains(
        #[trigger] executor.task_at(token),
    ) by {
        assert(tokens.to_set().contains(token));
        let i = tokens.index_of(token);
        assert(executor.tasks()[i] == executor.task_at(token));
    }
}

/// What [`crate::single_threaded::tasks`] returns of any executor ascends strictly by token, holds
/// exactly the registered tasks, and is as long as [`crate::single_threaded::tasks_count`] says.
pub proof fn law_tasks_of_an_executor<F>(executor: &Executor<F>)
    ensures
        executor@.tasks().len() == executor@.futures.len(),
        forall|i: int, j: int|
            0 <= i < j < executor@.tasks().len() ==> executor@.tasks()[i].token
                < executor@.tasks()[j].token,
        forall|task: Task|
            executor@.tasks().contains(task) <==> executor@.futures.contains_key(task.token)
                && #[trigger] executor@.task_at(task.token) == task,
{
    lemma_finitely_many_tasks(executor);
    law_tasks_are_listed_once(executor@);
    assert forall|task: Task|
        executor@.futures.contains_key(task.token) && #[trigger] executor@.task_at(task.token)
            == task implies executor@.tasks().contains(task) by {}
    assert forall|task: Task| executor@.tasks().contains(task) implies executor@.futures.contains_key(
        task.token,
    ) && #[trigger] executor@.task_at(task.token) == task by {
        let i = executor@.tasks().index_of(task);
        assert(executor@.tasks()[i] == task);
    }
}

// What a poll does
/// A future that is polled and stays pending is back in its place afterwards: the executor is as it
/// was but for the queue.
pub proof fn law_pending_poll_changes_no_task<F, W>(state: LoopState<F, W>)
    requires
        state.turn().1 is Poll,
    ensures
        ({
            let (lent, action) = state.turn();
            lent.executor.taken_back(action->task, action->future, false)
                == state.popped().executor
        }),
{
    let (lent, action) = state.turn();
    assert(lent.executor.taken_back(action->task, action->future, false).futures
        =~= state.executor.futures);
}

/// A future that is polled and is ready leaves with its task, which has completed, and with no other.
pub proof fn law_ready_poll_removes_the_task<F, W>(state: LoopState<F, W>)
    requires
        state.turn().1 is Poll,
    ensures
        ({
            let (lent, action) = state.turn();
            let after = lent.executor.taken_back(action->task, action->future, true);
            &&& after == state.popped().executor.without(action->task.token)
            &&& after.completed(action->task)
            &&& forall|other: Task|
                other.token != action->task.token ==> after.completed(other)
                    == #[trigger] state.executor.completed(other)
        }),
{
    let (lent, action) = state.turn();
    assert(lent.executor.taken_back(action->task, action->future, true).futures
        =~= state.executor.futures.remove(action->task.token));
}

/// A task completes when its future is handed back ready, and by nothing else: not by an eviction, by
/// other tasks or by the run loop. From then on it has completed, until its token is given out again.
pub proof fn law_tasks_complete_when_ready<F, W>(
    state: LoopState<F, W>,
    task: Task,
    other: Task,
    type_info: TypeInfo,
    future: F,
    ready: bool,
    event: Event,
)
    ensures
        ({
            let executor = state.executor;
            let completes = ready && other.token == task.token && executor.future_at(task.token)
                is None;
            &&& executor.taken_back(other, future, ready).completed(task) <==> executor.completed(task)
                || completes
            &&& executor.registered(type_info, future).completed(task) <==> executor.completed(task)
                && executor.counter != task.token
            &&& executor.evicted().completed(task) == executor.completed(task)
            &&& executor.enqueued(other).completed(task) == executor.completed(task)
            &&& state.step(event).0.executor.completed(task) == executor.completed(task)
        }),
{
}

/// The run loop neither registers nor removes tasks. It lends the future that it wants polled, and
/// leaves all others where they are.
pub proof fn law_loop_keeps_tasks<F, W>(state: LoopState<F, W>, event: Event)
    ensures
        state.step(event).0.executor.futures.dom() == state.executor.futures.dom(),
        forall|token: usize| #[trigger]
            state.executor.futures.contains_key(token) && !(state.step(event).1 is Poll
                && state.step(event).1->task.token == token)
                ==> state.step(event).0.executor.futures[token] == state.executor.futures[token],
{
    assert(state.step(event).0.executor.futures.dom() =~= state.executor.futures.dom());
}

// When the loop is left
/// A run with an `until` task that has not completed yet is over exactly when that task is reported
/// ready. The loop is left with `true` then, once the while function was asked if there is one. It is
/// left at once on entry if the task has completed before.
pub proof fn law_until_ends_with_its_task<F, W>(state: LoopState<F, W>, event: Event)
    requires
        state.conditions.until is Some,
    ensures
        state.conditions.until_satisfied ==> {
            &&& state.step(Event::Entered) == (state, Action::<F, W>::Return(true))
            &&& forall|proceed: bool|
                (#[trigger] state.step(Event::Checked { proceed })).1 == Action::<F, W>::Return(true)
        },
        !state.conditions.until_satisfied ==> {
            let ends = event matches Event::Polled { task, ready } && ready && task.token
                == state.conditions.until->0.token;
            &&& state.step(event).0.conditions.until_satisfied <==> ends
            &&& state.step(event).1 == Action::<F, W>::Return(true) <==> ends
                && state.conditions.while_fn_at_hand() is None
        },
{
}

/// Without an `until` task, the loop is left with `true` only when no task is left.
pub proof fn law_without_until_all_tasks_complete<F, W>(state: LoopState<F, W>, event: Event)
    requires
        state.conditions.until is None,
        state.step(event).1 == Action::<F, W>::Return(true),
    ensures
        state.executor.futures.is_empty(),
        state.step(event).0.executor.futures.is_empty(),
{
}

/// Without an `until` task, what earlier runs have come to makes no difference to a new one.
pub proof fn law_start_runs_new_tasks<F, W>(state: LoopState<F, W>)
    requires
        state.conditions.until is None,
    ensures
        state.step(Event::Entered) == state.with_satisfied(false).step(Event::Entered),
        !state.executor.futures.is_empty() ==> state.step(Event::Entered).1 != Action::<
            F,
            W,
        >::Return(true),
{
}

/// Without an `until` task, the loop does not go on once no task is left: it is left with `true`,
/// when the while function was asked if there is one.
pub proof fn law_loop_ends_without_tasks<F, W>(state: LoopState<F, W>, event: Event)
    requires
        state.conditions.until is None,
        state.executor.futures.is_empty(),
    ensures
        state.step(event).1 == Action::<F, W>::Return(true) || (!(event is Checked)
            && state.step(event).1 is Check),
        event is Checked || state.conditions.while_fn_at_hand() is None ==> state.step(event).1
            == Action::<F, W>::Return(true),
{
}

/// When the loop was left with `true`, the run is over and marked as such. If it had an `until` task
/// then entering the loop again does nothing and answers the same, until a new one is set or the
/// conditions are reset.
pub proof fn law_satisfied_run_is_over<F, W>(state: LoopState<F, W>, event: Event)
    requires
        state.step(event).1 == Action::<F, W>::Return(true),
    ensures
        state.step(event).0.over(),
        state.step(event).0.conditions.until_satisfied,
        state.conditions.until is Some ==> state.step(event).0.step(Event::Entered) == (
            state.step(event).0,
            Action::<F, W>::Return(true),
        ),
{
}

/// The loop is left with `false` only when the run is not over and the while function said no or a
/// request to exit is heeded. No request to exit is left then.
pub proof fn law_false_means_exit<F, W>(state: LoopState<F, W>, event: Event)
    requires
        state.step(event).1 == Action::<F, W>::Return(false),
    ensures
        event == (Event::Checked { proceed: false }) || (state.conditions.exit_loop
            && state.conditions.yields),
        !state.step(event).0.over(),
        !state.step(event).0.conditions.exit_loop,
{
}

/// While requests to exit are not heeded, which is so during a blocking run, only the while function
/// makes the loop give up.
pub proof fn law_blocking_run_ignores_exit_requests<F, W>(state: LoopState<F, W>, event: Event)
    requires
        !state.conditions.yields,
        event != (Event::Checked { proceed: false }),
    ensures
        state.step(event).1 != Action::<F, W>::Return(false),
        !state.step(event).0.conditions.yields,
{
}

/// A run that is not over is left with `false` when the while function says no. It also is when a turn
/// ends with a request to exit that is heeded, unless there is a while function to ask first.
pub proof fn law_exit_is_heeded<F, W>(state: LoopState<F, W>, event: Event)
    requires
        !state.over(),
        match event {
            Event::Checked { proceed } => !proceed || (state.conditions.exit_loop
                && state.conditions.yields),
            Event::Polled { task, ready } => {
                &&& state.conditions.exit_loop && state.conditions.yields
                &&& state.conditions.while_fn_at_hand() is None
                &&& !(ready && state.conditions.awaits(task))
            },
            _ => false,
        },
    ensures
        state.step(event).1 == Action::<F, W>::Return(false),
{
}

/// A loop that was left with `false` can be entered again: no task is lost, and the next turn is
/// taken as if the loop had gone on.
pub proof fn law_run_can_be_restarted<F, W>(state: LoopState<F, W>, event: Event)
    requires
        !state.conditions.until_satisfied,
        state.step(event).1 == Action::<F, W>::Return(false),
    ensures
        ({
            let left = state.step(event).0;
            &&& left.executor.futures == state.executor.futures
            &&& left.step(Event::Entered) == left.step(Event::Resumed)
        }),
{
}

// What a run leaves alone
/// The loop leaves the `until` task and whether exit requests are heeded unchanged. The while
/// function is the same after it was lent and taken back.
pub proof fn law_loop_keeps_conditions<F, W>(state: LoopState<F, W>, event: Event)
    ensures
        state.step(event).0.conditions.until == state.conditions.until,
        state.step(event).0.conditions.yields == state.conditions.yields,
        match state.step(event).1 {
            Action::Check { condition } => state.step(event).0.conditions.taken_back(
                condition,
            ).while_fn == state.conditions.while_fn,
            _ => state.step(event).0.conditions.while_fn == state.conditions.while_fn,
        },
{
}

/// The while function runs on every turn: as long as there is one, a turn neither goes on to the next
/// nor ends the run before the function was asked. Only a run whose `until` task has completed before
/// it is entered takes no turn.
pub proof fn law_while_function_runs_every_turn<F, W>(state: LoopState<F, W>, event: Event)
    requires
        state.conditions.while_fn_at_hand() is Some,
        !(event is Checked),
        !(event is Entered && state.resolved()),
    ensures
        match state.step(event).1 {
            Action::Poll { .. } => !(event is Polled),
            Action::Check { condition } => Some(condition) == state.conditions.while_fn_at_hand(),
            _ => false,
        },
{
}

/// When the loop goes on, there is something to poll unless no task is registered at all.
pub proof fn law_loop_never_starves<F, W>(state: LoopState<F, W>, event: Event)
    requires
        state.executor.futures.dom().finite(),
        state.step(event).1 is Again,
    ensures
        !state.step(event).0.executor.starves(),
{
    law_tasks_are_listed_once(state.executor);
    law_tasks_are_listed_once(state.popped().executor);
    if state.executor.futures.len() == 0 {
        assert(state.executor.futures.dom() =~= Set::empty());
    }
}

// What the parts of a state mean
/// The loop decides on the executor and the conditions as they are, and on nothing else.
pub proof fn law_loop_reads_what_is_there<F, W>(executor: &Executor<F>, conditions: &Conditions<W>)
    ensures
        loop_state(executor, conditions).executor == executor@,
        loop_state(executor, conditions).conditions == *conditions,
{
}

/// Two tasks are equal exactly if their tokens are, and one is less than the other exactly if its
/// token is.
pub proof fn law_tasks_compare_by_token(a: Task, b: Task)
    ensures
        Task::obeys_eq_spec(),
        Task::obeys_partial_cmp_spec(),
        a.eq_spec(&b) <==> a.token == b.token,
        a.partial_cmp_spec(&b) == Some(Ordering::Less) <==> a.token < b.token,
        a.partial_cmp_spec(&b) == Some(Ordering::Equal) <==> a.token == b.token,
        a.partial_cmp_spec(&b) == Some(Ordering::Greater) <==> a.token > b.token,
{
}

/// Whoever joins a task gets the value that the receiving half has taken, whatever its type. The task
/// counts as canceled only if the receiving half says so, and as pending only if nothing has arrived.
pub proof fn law_joining_hands_on_what_was_received<T>(
    received: Result<Option<T>, oneshot::Canceled>,
    value: T,
)
    ensures
        join_step(received) == JoinStep::<T>::Ready(Ok(value)) <==> received == Ok::<
            Option<T>,
            oneshot::Canceled,
        >(Some(value)),
        join_step(received) is Pending <==> received == Ok::<Option<T>, oneshot::Canceled>(None),
        join_step(received) == JoinStep::<T>::Ready(Err(JoinError::Canceled)) <==> received is Err,
{
}

/// A registration gives the task the token at the counter, which goes up by one or wraps to zero. The
/// future is in its place, the task is queued last, and nothing else changes: every other token keeps
/// its entry, and every other task its place in the queue.
pub proof fn law_registration_adds_one_task<F>(
    executor: ExecutorView<F>,
    type_info: TypeInfo,
    future: F,
)
    ensures
        ({
            let task = Task { token: executor.counter, type_info };
            let after = executor.registered(type_info, future);
            &&& executor.next_task(type_info) == task
            &&& after.counter == if task.token == usize::MAX {
                0
            } else {
                task.token + 1
            }
            &&& after.queue == executor.queue.push(task)
            &&& after.evictees == executor.evictees.remove(task.token)
            &&& after.futures.dom() == executor.futures.dom().insert(task.token)
            &&& after.futures.remove(task.token) == executor.futures.remove(task.token)
            &&& after.futures[task.token].future == Slot::Held(future)
            &&& after.futures[task.token].type_info == if executor.futures.contains_key(task.token) {
                executor.futures[task.token].type_info
            } else {
                type_info
            }
        }),
{
    let after = executor.registered(type_info, future);
    assert(after.futures.dom() =~= executor.futures.dom().insert(executor.counter));
    assert(after.futures.remove(executor.counter) =~= executor.futures.remove(executor.counter));
}

/// A token's future can be had exactly if the token is registered and the future is in its place, and
/// it is the one that is there.
pub proof fn law_future_is_the_one_in_its_place<F>(executor: ExecutorView<F>, token: usize, future: F)
    ensures
        executor.future_at(token) == Some(future) <==> executor.futures.contains_key(token)
            && executor.futures[token].future == Slot::Held(future),
        executor.is_lent(token) <==> executor.futures.contains_key(token)
            && executor.futures[token].future is Lent,
{
}

/// A task has completed exactly if its token is neither registered nor that of an evicted task.
pub proof fn law_completed_tasks_are_gone<F>(executor: ExecutorView<F>, task: Task)
    ensures
        executor.completed(task) <==> !executor.futures.dom().contains(task.token)
            && !executor.evictees.contains(task.token),
{
}

/// A wake puts the task in front of the queue, where it is served last, if its token is registered, and
/// changes nothing otherwise.
pub proof fn law_wake_queues_registered_tasks<F>(executor: ExecutorView<F>, task: Task)
    ensures
        ({
            let after = executor.enqueued(task);
            &&& after.counter == executor.counter
            &&& after.futures == executor.futures
            &&& after.evictees == executor.evictees
            &&& after.queue == if executor.futures.dom().contains(task.token) {
                seq![task].add(executor.queue)
            } else {
                executor.queue
            }
        }),
{
}

/// When a future is handed back ready, exactly its own task leaves: every other token keeps its entry,
/// the queue and the counter are as they were, and the token is no longer that of an evicted task.
/// When it is handed back pending, it is in its place again and nothing else changes. Nothing at all
/// changes if there is another future in its place.
pub proof fn law_handed_back_future_concerns_its_task_alone<F>(
    executor: ExecutorView<F>,
    task: Task,
    future: F,
    ready: bool,
)
    ensures
        ({
            let after = executor.taken_back(task, future, ready);
            let entry = executor.futures[task.token];
            let known = executor.futures.dom().contains(task.token);
            &&& after.counter == executor.counter
            &&& after.queue == executor.queue
            &&& after.futures.remove(task.token) == executor.futures.remove(task.token)
            &&& known && entry.future is Held ==> after == executor
            &&& !known && !ready ==> after == executor
            &&& ready && !(known && entry.future is Held) ==> {
                &&& after.futures == executor.futures.remove(task.token)
                &&& after.evictees == executor.evictees.remove(task.token)
            }
            &&& !ready && known && entry.future is Lent ==> {
                &&& after.futures.dom() == executor.futures.dom()
                &&& after.futures[task.token].future == Slot::Held(future)
                &&& after.futures[task.token].type_info == entry.type_info
                &&& after.evictees == executor.evictees
            }
        }),
{
    let after = executor.taken_back(task, future, ready);
    assert(after.futures.remove(task.token) =~= executor.futures.remove(task.token));
    assert(executor.futures.dom().contains(task.token) || executor.futures.remove(task.token)
        =~= executor.futures);
    if !ready && executor.futures.contains_key(task.token) {
        assert(after.futures.dom() =~= executor.futures.dom());
    }
}

/// An eviction removes every task and empties the queue. It remembers which tokens it has taken, and
/// leaves the counter alone.
pub proof fn law_eviction_removes_every_task<F>(executor: ExecutorView<F>)
    ensures
        executor.evicted().counter == executor.counter,
        executor.evicted().queue.len() == 0,
        forall|token: usize| !#[trigger] executor.evicted().futures.dom().contains(token),
        forall|token: usize| #[trigger]
            executor.evicted().evictees.contains(token) <==> executor.evictees.contains(token)
                || executor.futures.dom().contains(token),
{
}

/// A while function that is handed back goes to its place if that is vacant, and nothing else changes.
pub proof fn law_handed_back_while_function_goes_to_its_place<W>(
    conditions: Conditions<W>,
    condition: W,
)
    ensures
        conditions.while_fn == Some(Slot::<W>::Lent) ==> conditions.taken_back(condition) == (
        Conditions { while_fn: Some(Slot::Held(condition)), ..conditions }),
        conditions.while_fn != Some(Slot::<W>::Lent) ==> conditions.taken_back(condition)
            == conditions,
        conditions.while_fn_at_hand() == Some(condition) <==> conditions.while_fn == Some(
            Slot::Held(condition),
        ),
{
}

// One decision of the loop, field by field
/// The loop polls the last task of the queue when a turn starts, if that task is registered and its
/// future is in its place. Then that future is lent and that task leaves the queue, and no other.
/// In every other case no future is touched.
pub proof fn law_turn_polls_the_last_of_the_queue<F, W>(state: LoopState<F, W>, event: Event)
    ensures
        ({
            let (after, action) = state.step(event);
            let before = state.executor;
            let done_before = state.conditions.until is Some && state.conditions.until_satisfied;
            &&& action is Poll <==> {
                &&& event is Resumed || (event is Entered && !done_before)
                &&& before.queue.len() > 0
                &&& before.futures.dom().contains(before.queue.last().token)
                &&& before.futures[before.queue.last().token].future is Held
            }
            &&& match action {
                Action::Poll { task, future } => {
                    &&& before.queue == after.executor.queue.push(task)
                    &&& before.futures[task.token].future == Slot::Held(future)
                    &&& after.executor.futures.dom() == before.futures.dom()
                    &&& after.executor.futures[task.token].future == Slot::<F>::Lent
                    &&& after.executor.futures[task.token].type_info
                        == before.futures[task.token].type_info
                    &&& after.executor.futures.remove(task.token) == before.futures.remove(
                        task.token,
                    )
                    &&& after.conditions.exit_loop == state.conditions.exit_loop
                },
                _ => after.executor.futures == before.futures,
            }
        }),
{
    let (after, action) = state.step(event);
    if action is Poll {
        let task = action->task;
        assert(state.executor.queue =~= after.executor.queue.push(task));
        assert(after.executor.futures.dom() =~= state.executor.futures.dom());
        assert(after.executor.futures.remove(task.token) =~= state.executor.futures.remove(
            task.token,
        ));
    }
}

/// No decision loses or adds a queued task beyond the one that its turn takes from the end of the
/// queue, whether or not that one is polled. Only when the loop goes on with nothing queued is the
/// queue filled: then it holds every registered task once, the one with the smallest token at its end.
pub proof fn law_queue_changes_by_turns_and_feeding<F, W>(state: LoopState<F, W>, event: Event)
    requires
        state.executor.futures.dom().finite(),
    ensures
        ({
            let (after, action) = state.step(event);
            let before = state.executor.queue;
            let queue = after.executor.queue;
            let futures = state.executor.futures;
            let done_before = state.conditions.until is Some && state.conditions.until_satisfied;
            let turn = event is Resumed || (event is Entered && !done_before);
            let emptied = before.len() == 0 || (turn && before.len() == 1);
            if action is Again && emptied && futures.dom().len() > 0 {
                &&& queue.len() == futures.dom().len()
                &&& forall|i: int, j: int|
                    0 <= i < j < queue.len() ==> queue[i].token > queue[j].token
                &&& forall|task: Task| #[trigger]
                    queue.contains(task) <==> futures.dom().contains(task.token)
                        && futures[task.token].type_info == task.type_info
            } else if turn && before.len() > 0 {
                before == queue.push(before.last())
            } else {
                queue == before
            }
        }),
{
    let (after, action) = state.step(event);
    let before = state.executor.queue;
    let queue = after.executor.queue;
    let done_before = state.conditions.until is Some && state.conditions.until_satisfied;
    let turn = event is Resumed || (event is Entered && !done_before);
    let emptied = before.len() == 0 || (turn && before.len() == 1);
    if state.executor.futures.dom().len() == 0 {
        assert(state.executor.futures.dom() =~= Set::empty());
    }
    if action is Again && emptied && state.executor.futures.dom().len() > 0 {
        let fed = ExecutorView { queue: Seq::empty(), ..state.executor };
        lemma_fed_queue(fed);
        assert(!state.executor.futures.is_empty());
        assert(before.len() == 0 ==> before =~= Seq::<Task>::empty());
        assert(before.len() == 1 ==> before.drop_last() =~= Seq::<Task>::empty());
        assert(fed.tasks() =~= state.executor.tasks());
        assert(queue =~= fed.refilled().queue);
    } else if turn && before.len() > 0 {
        assert(before =~= before.drop_last().push(before.last()));
    }
}

proof fn lemma_fed_queue<F>(executor: ExecutorView<F>)
    requires
        executor.futures.dom().finite(),
        executor.queue.len() == 0,
    ensures
        ({
            let queue = executor.refilled().queue;
            let futures = executor.futures;
            &&& queue.len() == futures.dom().len()
            &&& forall|i: int, j: int| 0 <= i < j < queue.len() ==> queue[i].token > queue[j].token
            &&& forall|task: Task| #[trigger]
                queue.contains(task) <==> futures.dom().contains(task.token)
                    && futures[task.token].type_info == task.type_info
        }),
{
    let tasks = executor.tasks();
    let queue = executor.refilled().queue;
    law_tasks_are_listed_once(executor);
    assert(queue =~= tasks.reverse());
    assert forall|task: Task| #[trigger]
        queue.contains(task) <==> executor.futures.dom().contains(task.token)
            && executor.futures[task.token].type_info == task.type_info by {
        if queue.contains(task) {
            let i = queue.index_of(task);
            assert(tasks[tasks.len() - 1 - i] == task);
        }
        if executor.futures.dom().contains(task.token)
            && executor.futures[task.token].type_info == task.type_info {
            assert(tasks.contains(executor.task_at(task.token)));
            let i = tasks.index_of(task);
            assert(queue[tasks.len() - 1 - i] == task);
        }
    }
}

/// What the loop does to feed an executor: nothing unless no task is queued and some are registered.
/// Then every registered task is queued once, the one with the smallest token at the end of the queue.
/// Nothing else changes.
pub proof fn law_feeding_queues_every_task<F, W>(state: LoopState<F, W>)
    requires
        state.executor.futures.dom().finite(),
    ensures
        ({
            let queue = state.fed().executor.queue;
            let futures = state.executor.futures;
            &&& state.fed() == (LoopState {
                executor: ExecutorView { queue, ..state.executor },
                ..state
            })
            &&& if state.executor.queue.len() == 0 {
                &&& queue.len() == futures.dom().len()
                &&& forall|i: int, j: int|
                    0 <= i < j < queue.len() ==> queue[i].token > queue[j].token
                &&& forall|task: Task| #[trigger]
                    queue.contains(task) <==> futures.dom().contains(task.token)
                        && futures[task.token].type_info == task.type_info
            } else {
                queue == state.executor.queue
            }
        }),
{
    if state.executor.queue.len() == 0 {
        if state.executor.futures.is_empty() {
            assert(state.executor.futures.dom() =~= Set::empty());
            assert(state.fed() == state);
        } else {
            lemma_fed_queue(state.executor);
        }
    }
}

/// The completion of a task leaves the queue alone: whatever was queued when a future turned out to be
/// ready is queued afterwards, in the same order. The same goes for a future that stays pending and for
/// the answer of the while function. An executor with nothing queued is fed if the loop goes on.
pub proof fn law_reports_leave_the_queue_alone<F, W>(state: LoopState<F, W>, event: Event)
    requires
        event is Polled || event is Checked,
        state.executor.queue.len() > 0 || !(state.step(event).1 is Again),
    ensures
        state.step(event).0.executor == state.executor,
{
}

/// The loop never raises a request to exit. It clears one exactly when a turn ends and the run is not
/// over, which is when the loop goes on or is left with `false`.
pub proof fn law_loop_never_requests_an_exit<F, W>(state: LoopState<F, W>, event: Event)
    ensures
        ({
            let (after, action) = state.step(event);
            &&& after.conditions.exit_loop ==> state.conditions.exit_loop
            &&& after.conditions.exit_loop <==> state.conditions.exit_loop && !(action is Again)
                && action != Action::<F, W>::Return(false)
        }),
{
}

/// No decision moves the counter, forgets an evicted token, replaces the `until` task or changes whether
/// requests to exit are heeded.
pub proof fn law_decisions_leave_these_alone<F, W>(state: LoopState<F, W>, event: Event)
    ensures
        state.step(event).0.executor.counter == state.executor.counter,
        state.step(event).0.executor.evictees == state.executor.evictees,
        state.step(event).0.executor.futures.dom() == state.executor.futures.dom(),
        state.step(event).0.conditions.until == state.conditions.until,
        state.step(event).0.conditions.yields == state.conditions.yields,
{
    assert(state.step(event).0.executor.futures.dom() =~= state.executor.futures.dom());
}

/// What ends a run is marked as having come about when the loop is left with `true` and when the `until`
/// task is reported ready, and stays marked until the loop is entered. It is not marked otherwise.
pub proof fn law_what_ends_a_run_is_marked<F, W>(state: LoopState<F, W>, event: Event)
    ensures
        ({
            let (after, action) = state.step(event);
            let reported = event matches Event::Polled { task, ready } && ready
                && state.conditions.until is Some && state.conditions.until->0.token == task.token;
            after.conditions.until_satisfied <==> {
                ||| action == Action::<F, W>::Return(true)
                ||| reported
                ||| state.conditions.until_satisfied && !(event is Entered)
            }
        }),
{
}

/// The while function is asked in every turn in which it is in its place, once nothing is left to poll
/// and before anything else is decided. It is lent then, and is left in its place otherwise.
pub proof fn law_while_function_is_asked<F, W>(state: LoopState<F, W>, event: Event)
    ensures
        ({
            let (after, action) = state.step(event);
            let done_before = state.conditions.until is Some && state.conditions.until_satisfied;
            let at_hand = state.conditions.while_fn is Some && state.conditions.while_fn->0 is Held;
            &&& action is Check <==> at_hand && !(action is Poll) && !(event is Checked) && !(
            event is Entered && done_before)
            &&& match action {
                Action::Check { condition } => {
                    &&& state.conditions.while_fn == Some(Slot::Held(condition))
                    &&& after.conditions.while_fn == Some(Slot::<W>::Lent)
                },
                _ => after.conditions.while_fn == state.conditions.while_fn,
            }
        }),
{
}

/// When there is nothing to poll and nobody to ask, a turn ends. The loop is left with `true` if the
/// `until` task has been reported ready, or if there is none and no task is registered. If not, it is left
/// with `false` if the while function has said no or a request to exit is to be heeded. If neither, it
/// goes on.
pub proof fn law_end_of_a_turn_decides<F, W>(state: LoopState<F, W>, event: Event)
    ensures
        ({
            let action = state.step(event).1;
            let conditions = state.conditions;
            let done_before = conditions.until is Some && conditions.until_satisfied;
            let reported = event matches Event::Polled { task, ready } && ready
                && conditions.until is Some && conditions.until->0.token == task.token;
            let come_about = match conditions.until {
                Some(_) => reported || done_before,
                None => forall|token: usize|
                    !#[trigger] state.executor.futures.dom().contains(token),
            };
            let refused = event matches Event::Checked { proceed } && !proceed;
            let requested = conditions.exit_loop && conditions.yields;
            if event is Entered && done_before {
                action == Action::<F, W>::Return(true)
            } else {
                action is Poll || action is Check || action == if come_about {
                    Action::<F, W>::Return(true)
                } else if refused || requested {
                    Action::<F, W>::Return(false)
                } else {
                    Action::<F, W>::Again
                }
            }
        }),
{
    assert(state.executor.futures.is_empty() <==> forall|token: usize|
        !#[trigger] state.executor.futures.dom().contains(token)) by {
        if forall|token: usize| !#[trigger] state.executor.futures.dom().contains(token) {
            assert(state.executor.futures =~= Map::empty());
        }
    }
}

/// As long as nobody requests an exit and there is no while function, a run that waits for a task is left
/// only when that task is reported ready, however many decisions it takes and whatever happens to the
/// executor between them. `states` are the states in which the decisions on `events` are taken, and the
/// first is one in which a run has just been entered, or any later one.
pub proof fn law_run_until_is_left_only_when_its_task_is_ready<F, W>(
    states: Seq<LoopState<F, W>>,
    events: Seq<Event>,
    until: Task,
    n: int,
)
    requires
        states.len() == events.len(),
        0 <= n < events.len(),
        states[0].conditions.until == Some(until),
        !states[0].conditions.until_satisfied,
        states[0].conditions.while_fn is None,
        !states[0].conditions.exit_loop,
        forall|i: int| 0 <= i < events.len() ==> !((#[trigger] events[i]) is Checked),
        forall|i: int|
            0 <= i < events.len() - 1 ==> (#[trigger] states[i + 1]).conditions == states[i].step(
                events[i],
            ).0.conditions,
        forall|i: int|
            0 <= i < n ==> !((#[trigger] states[i]).step(events[i]).1 is Return),
    ensures
        states[n].conditions.until == Some(until),
        !states[n].conditions.exit_loop,
        !states[n].conditions.until_satisfied,
        states[n].step(events[n]).1 is Return <==> {
            &&& events[n] is Polled
            &&& events[n]->ready
            &&& events[n]->task.token == until.token
        },
        states[n].step(events[n]).1 is Return ==> states[n].step(events[n]).1 == Action::<
            F,
            W,
        >::Return(true),
        !states[n].step(events[n]).0.conditions.exit_loop,
{
    lemma_waiting_run_goes_on(states, events, until, n);
}

proof fn lemma_waiting_run_goes_on<F, W>(
    states: Seq<LoopState<F, W>>,
    events: Seq<Event>,
    until: Task,
    n: int,
)
    requires
        states.len() == events.len(),
        0 <= n < events.len(),
        states[0].conditions.until == Some(until),
        !states[0].conditions.until_satisfied,
        states[0].conditions.while_fn is None,
        !states[0].conditions.exit_loop,
        forall|i: int| 0 <= i < events.len() ==> !((#[trigger] events[i]) is Checked),
        forall|i: int|
            0 <= i < events.len() - 1 ==> (#[trigger] states[i + 1]).conditions == states[i].step(
                events[i],
            ).0.conditions,
        forall|i: int|
            0 <= i < n ==> !((#[trigger] states[i]).step(events[i]).1 is Return),
    ensures
        states[n].conditions.until == Some(until),
        !states[n].conditions.until_satisfied,
        states[n].conditions.while_fn is None,
        !states[n].conditions.exit_loop,
    decreases n,
{
    if n > 0 {
        lemma_waiting_run_goes_on(states, events, until, n - 1);
        assert(states[n - 1 + 1].conditions == states[n - 1].step(events[n - 1]).0.conditions);
    }
}

} // verus!
