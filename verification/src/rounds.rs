//! Whole rounds of the run loop: which tasks are polled when nothing interferes.
use crate::conditions::Conditions;
use crate::executor::{ExecutorView, Slot};
use crate::laws::{
    law_pending_poll_changes_no_task, law_ready_poll_removes_the_task, law_tasks_are_listed_once,
};
use crate::run_loop::{Action, Event, LoopState};
use crate::task::Task;
use vstd::prelude::*;

verus! {

impl<F, W> LoopState<F, W> {
    /// What a decision comes to once the while function, if it is to be called, has said yes.
    pub open spec fn approved(decision: (Self, Action<F, W>)) -> (Self, Action<F, W>) {
        match decision.1 {
            Action::Check { condition } => (LoopState {
                conditions: decision.0.conditions.taken_back(condition),
                ..decision.0
            }).step(Event::Checked { proceed: true }),
            _ => decision,
        }
    }

    /// A whole turn in which the future that is polled stays pending, nothing is woken or spawned,
    /// and the while function, if there is one, says yes.
    pub open spec fn quiet_turn(self) -> (Self, Action<F, W>) {
        let (lent, action) = self.step(Event::Resumed);
        match action {
            Action::Poll { task, future } => Self::approved(
                (LoopState {
                    executor: lent.executor.taken_back(task, future, false),
                    ..lent
                }).step(Event::Polled { task, ready: false }),
            ),
            _ => Self::approved((lent, action)),
        }
    }

    /// A whole run of one turn, with the executor fed before, in which the future that is polled stays
    /// pending, nothing is woken or spawned, and the while function says no.
    pub open spec fn refused_run(self) -> (Self, Action<F, W>) {
        let (lent, action) = self.fed().step(Event::Entered);
        let (asking, check) = match action {
            Action::Poll { task, future } => (LoopState {
                executor: lent.executor.taken_back(task, future, false),
                ..lent
            }).step(Event::Polled { task, ready: false }),
            _ => (lent, action),
        };
        (LoopState {
            conditions: asking.conditions.taken_back(check->condition),
            ..asking
        }).step(Event::Checked { proceed: false })
    }

    /// The state after `count` quiet turns.
    pub open spec fn after_quiet_turns(self, count: nat) -> Self
        decreases count,
    {
        if count == 0 {
            self
        } else {
            self.after_quiet_turns((count - 1) as nat).quiet_turn().0
        }
    }

    /// Whether a quiet turn does not end the run: it is not over, and there is no request to exit that
    /// has to be heeded.
    pub open spec fn goes_on(self) -> bool {
        !self.over() && !(self.conditions.exit_loop && self.conditions.yields)
    }

    /// The state with a request to exit, which is not heeded, cleared.
    pub open spec fn heard(self) -> Self {
        LoopState { conditions: Conditions { exit_loop: false, ..self.conditions }, ..self }
    }
}

/// A quiet turn takes the last task from the queue and changes nothing else, except that it feeds
/// an executor that would starve.
pub proof fn law_quiet_turn<F, W>(state: LoopState<F, W>)
    requires
        state.goes_on(),
        state.executor.queue.len() > 0,
    ensures
        state.quiet_turn().1 is Again,
        state.quiet_turn().0 == state.popped().heard().fed(),
{
    if state.turn().1 is Poll {
        law_pending_poll_changes_no_task(state);
    }
}

/// As long as nothing interferes, the queue is served from its end, one task each turn.
pub proof fn law_queue_is_served_in_order<F, W>(state: LoopState<F, W>, turns: nat)
    requires
        state.goes_on(),
        turns < state.executor.queue.len(),
    ensures
        state.after_quiet_turns(turns).executor == (ExecutorView {
            queue: state.executor.queue.take(state.executor.queue.len() - turns),
            ..state.executor
        }),
        state.after_quiet_turns(turns).goes_on(),
        state.after_quiet_turns(turns).conditions.until == state.conditions.until,
    decreases turns,
{
    if turns == 0 {
        assert(state.executor.queue.take(state.executor.queue.len() as int)
            =~= state.executor.queue);
    } else {
        let before = state.after_quiet_turns((turns - 1) as nat);
        law_queue_is_served_in_order(state, (turns - 1) as nat);
        law_quiet_turn(before);
        assert(before.executor.queue.drop_last() =~= state.executor.queue.take(
            state.executor.queue.len() - turns,
        ));
    }
}

/// A queued task whose future is in its place is polled once the tasks behind it in the queue have
/// had their turns.
pub proof fn law_queued_task_is_polled<F, W>(state: LoopState<F, W>, turns: nat)
    requires
        state.goes_on(),
        turns < state.executor.queue.len(),
        state.executor.future_at(
            state.executor.queue[state.executor.queue.len() - 1 - turns].token,
        ) is Some,
    ensures
        ({
            let task = state.executor.queue[state.executor.queue.len() - 1 - turns];
            state.after_quiet_turns(turns).step(Event::Resumed).1 == Action::<F, W>::Poll {
                task,
                future: state.executor.future_at(task.token)->0,
            }
        }),
{
    law_queue_is_served_in_order(state, turns);
}

/// A run that waits for a queued task ends with `true` if the task is ready when its turn comes.
pub proof fn law_run_until_reaches_its_task<F, W>(state: LoopState<F, W>, turns: nat)
    requires
        state.goes_on(),
        turns < state.executor.queue.len(),
        state.conditions.awaits(state.executor.queue[state.executor.queue.len() - 1 - turns]),
        state.executor.future_at(
            state.executor.queue[state.executor.queue.len() - 1 - turns].token,
        ) is Some,
    ensures
        ({
            let (lent, action) = state.after_quiet_turns(turns).step(Event::Resumed);
            &&& action is Poll
            &&& LoopState::approved(
                (LoopState {
                    executor: lent.executor.taken_back(action->task, action->future, true),
                    ..lent
                }).step(Event::Polled { task: action->task, ready: true }),
            ).1 == Action::<F, W>::Return(true)
        }),
{
    law_queued_task_is_polled(state, turns);
    law_queue_is_served_in_order(state, turns);
}

/// An executor that was about to starve polls every registered task in the order of the tokens, each
/// of them once, and is about to starve again when it has done so: no task waits forever though none
/// is ever woken.
pub proof fn law_starved_tasks_are_polled_in_turn<F, W>(state: LoopState<F, W>)
    requires
        state.goes_on(),
        state.executor.futures.dom().finite(),
        !state.executor.futures.is_empty(),
        state.executor.queue == state.executor.tasks().reverse(),
        forall|token: usize|
            state.executor.futures.contains_key(token) ==> (
            #[trigger] state.executor.future_at(token)) is Some,
    ensures
        forall|i: int|
            0 <= i < state.executor.tasks().len() ==> state.after_quiet_turns(i as nat).step(
                Event::Resumed,
            ).1 == (Action::<F, W>::Poll {
                task: #[trigger] state.executor.tasks()[i],
                future: state.executor.future_at(state.executor.tasks()[i].token)->0,
            }),
        state.after_quiet_turns(state.executor.tasks().len()).executor == state.executor,
        state.after_quiet_turns(state.executor.tasks().len()).goes_on(),
{
    let tasks = state.executor.tasks();
    law_tasks_are_listed_once(state.executor);
    assert(tasks.len() > 0) by {
        if state.executor.futures.len() == 0 {
            assert(state.executor.futures.dom() =~= Set::empty());
        }
    }
    assert forall|i: int| 0 <= i < tasks.len() implies state.after_quiet_turns(i as nat).step(
        Event::Resumed,
    ).1 == (Action::<F, W>::Poll {
        task: #[trigger] tasks[i],
        future: state.executor.future_at(tasks[i].token)->0,
    }) by {
        assert(state.executor.queue[tasks.len() - 1 - i] == tasks[i]);
        law_queued_task_is_polled(state, i as nat);
    }
    let last = state.after_quiet_turns((tasks.len() - 1) as nat);
    law_queue_is_served_in_order(state, (tasks.len() - 1) as nat);
    law_quiet_turn(last);
    assert(last.executor.queue.drop_last() =~= Seq::<Task>::empty());
    let starved = last.popped().executor;
    assert(starved.starves());
    assert(starved.tasks() =~= tasks);
    assert(starved.refilled().queue =~= state.executor.queue);
    assert(starved.refilled() =~= state.executor);
}

/// A while function that says no on every turn does not hold a blocking run up: each time the loop is
/// entered again, with the executor fed first if it starves, the next task of the queue is polled.
pub proof fn law_blocking_run_is_not_held_up<F, W>(state: LoopState<F, W>)
    requires
        !state.over(),
        state.conditions.while_fn_at_hand() is Some,
        state.executor.futures.dom().finite(),
        !state.executor.futures.is_empty(),
    ensures
        state.fed().executor.queue.len() > 0,
        ({
            let task = state.fed().executor.queue.last();
            state.executor.future_at(task.token) matches Some(future) ==> state.fed().step(
                Event::Entered,
            ).1 == (Action::<F, W>::Poll { task, future })
        }),
        state.refused_run().1 == Action::<F, W>::Return(false),
        state.refused_run().0.executor == state.fed().popped().executor,
        state.refused_run().0.conditions.while_fn == state.conditions.while_fn,
        !state.refused_run().0.over(),
        state.refused_run().0.conditions.yields == state.conditions.yields,
{
    law_tasks_are_listed_once(state.executor);
    if state.executor.futures.len() == 0 {
        assert(state.executor.futures.dom() =~= Set::empty());
    }
    let entered = state.fed().with_satisfied(false);
    if entered.turn().1 is Poll {
        law_pending_poll_changes_no_task(entered);
    }
}

impl<F, W> LoopState<F, W> {
    /// A whole turn in which the future that is polled turns out to be ready or not, nothing is woken or
    /// spawned, and the while function, if there is one, says yes.
    pub open spec fn plain_turn(self, ready: bool) -> (Self, Action<F, W>) {
        let (lent, action) = self.step(Event::Resumed);
        match action {
            Action::Poll { task, future } => Self::approved(
                (LoopState {
                    executor: lent.executor.taken_back(task, future, ready),
                    ..lent
                }).step(Event::Polled { task, ready }),
            ),
            _ => Self::approved((lent, action)),
        }
    }

    /// The state after one whole turn for each of `ready`, which tells of the future that is polled in
    /// that turn, if any, whether it is ready.
    pub open spec fn after_turns(self, ready: Seq<bool>) -> Self
        decreases ready.len(),
    {
        if ready.len() == 0 {
            self
        } else {
            self.after_turns(ready.drop_last()).plain_turn(ready.last()).0
        }
    }
}

/// A turn whose while function says yes goes on to the next turn, as long as no exit was requested that is
/// heeded, the task that the run waits for is not the one that is ready, and there are tasks left if the
/// run waits for none. That is so whether the polled future is pending or ready. The turn takes one task
/// from the queue, and that task leaves if its future was ready. Nothing else changes, except that an
/// executor with nothing queued is fed.
pub proof fn law_turn_goes_on<F, W>(state: LoopState<F, W>, ready: bool)
    requires
        state.executor.queue.len() > 0,
        !(state.conditions.exit_loop && state.conditions.yields),
        match state.conditions.until {
            Some(until) => !state.conditions.until_satisfied && !(ready && until.token
                == state.executor.queue.last().token),
            None => exists|token: usize| #[trigger]
                state.executor.futures.dom().contains(token) && !(ready && token
                    == state.executor.queue.last().token),
        },
    ensures
        ({
            let (after, action) = state.plain_turn(ready);
            let task = state.executor.queue.last();
            let polled = state.executor.futures.dom().contains(task.token)
                && state.executor.futures[task.token].future is Held;
            &&& action is Again
            &&& after.conditions == (Conditions { exit_loop: false, ..state.conditions })
            &&& after.executor.counter == state.executor.counter
            &&& after.executor.futures == if polled && ready {
                state.executor.futures.remove(task.token)
            } else {
                state.executor.futures
            }
            &&& state.executor.queue.len() > 1 ==> state.executor.queue
                == after.executor.queue.push(task)
        }),
{
    let task = state.executor.queue.last();
    assert(state.executor.queue =~= state.executor.queue.drop_last().push(task));
    if state.conditions.until is None {
        let token = choose|token: usize| #[trigger]
            state.executor.futures.dom().contains(token) && !(ready && token == task.token);
        assert(state.executor.futures.contains_key(token));
        assert(!state.executor.futures.is_empty());
        assert(state.executor.futures.remove(task.token).dom().contains(token) || token
            == task.token);
    }
    if state.turn().1 is Poll {
        if ready {
            law_ready_poll_removes_the_task(state);
        } else {
            law_pending_poll_changes_no_task(state);
        }
    }
}

/// A turn in which the awaited task is ready leaves the loop with `true`. One in which the polled future
/// stays pending and a request to exit is heeded leaves it with `false`.
pub proof fn law_turn_leaves_the_loop<F, W>(state: LoopState<F, W>)
    requires
        state.step(Event::Resumed).1 is Poll,
    ensures
        ({
            let action = state.step(Event::Resumed).1;
            &&& state.conditions.until matches Some(until) ==> until.token == action->task.token
                ==> state.plain_turn(true).1 == Action::<F, W>::Return(true)
            &&& state.conditions.exit_loop && state.conditions.yields && (
            state.conditions.until is Some ==> !state.conditions.until_satisfied)
                ==> state.plain_turn(false).1 == Action::<F, W>::Return(false)
        }),
{
    law_pending_poll_changes_no_task(state);
    law_ready_poll_removes_the_task(state);
    let task = state.step(Event::Resumed).1->task;
    assert(state.executor.futures.contains_key(task.token));
}

/// A queued task whose future is in its place is polled once the tasks behind it in the queue have had
/// their turns, also when some of them complete in those turns. `ready` tells which do. Each of those
/// turns goes on to the next. Afterwards the tasks that were ready are gone, and all others are as they
/// were.
pub proof fn law_queued_task_is_polled_though_others_complete<F, W>(
    state: LoopState<F, W>,
    ready: Seq<bool>,
)
    requires
        ready.len() < state.executor.queue.len(),
        !(state.conditions.exit_loop && state.conditions.yields),
        !(state.conditions.until is Some && state.conditions.until_satisfied),
        ({
            let task = state.executor.queue[state.executor.queue.len() - 1 - ready.len()];
            &&& state.executor.futures.dom().contains(task.token)
            &&& state.executor.futures[task.token].future is Held
            &&& forall|i: int|
                0 <= i < ready.len() && #[trigger] ready[i] ==> {
                    let other = state.executor.queue[state.executor.queue.len() - 1 - i];
                    &&& other.token != task.token
                    &&& !(state.conditions.until is Some && state.conditions.until->0.token
                        == other.token)
                }
        }),
    ensures
        ({
            let task = state.executor.queue[state.executor.queue.len() - 1 - ready.len()];
            let after = state.after_turns(ready);
            let action = after.step(Event::Resumed).1;
            &&& after.executor.queue == state.executor.queue.take(
                state.executor.queue.len() - ready.len(),
            )
            &&& action is Poll
            &&& action->task == task
            &&& state.executor.futures[task.token].future == Slot::Held(action->future)
            &&& forall|token: usize| #[trigger]
                after.executor.futures.dom().contains(token) <==> {
                    &&& state.executor.futures.dom().contains(token)
                    &&& state.executor.futures[token].future is Held ==> forall|i: int|
                        0 <= i < ready.len() && #[trigger] ready[i] ==> state.executor.queue[
                        state.executor.queue.len() - 1 - i].token != token
                }
            &&& forall|token: usize|
                after.executor.futures.dom().contains(token)
                    ==> #[trigger] after.executor.futures[token] == state.executor.futures[token]
            &&& forall|i: int|
                0 <= i < ready.len() ==> (#[trigger] state.after_turns(ready.take(i))).plain_turn(
                    ready[i],
                ).1 is Again
        }),
{
    let task = state.executor.queue[state.executor.queue.len() - 1 - ready.len()];
    lemma_after_turns(state, ready, task);
    assert forall|i: int| 0 <= i < ready.len() implies (#[trigger] state.after_turns(
        ready.take(i),
    )).plain_turn(ready[i]).1 is Again by {
        lemma_turns_go_on(state, ready, task, i);
    }
    let after = state.after_turns(ready);
    assert(after.executor.queue.last() == task);
    assert(after.executor.futures.dom().contains(task.token));
}

proof fn lemma_turns_go_on<F, W>(state: LoopState<F, W>, ready: Seq<bool>, task: Task, i: int)
    requires
        ready.len() < state.executor.queue.len(),
        0 <= i < ready.len(),
        !(state.conditions.exit_loop && state.conditions.yields),
        !(state.conditions.until is Some && state.conditions.until_satisfied),
        state.executor.futures.dom().contains(task.token),
        forall|i: int|
            0 <= i < ready.len() && #[trigger] ready[i] ==> {
                let other = state.executor.queue[state.executor.queue.len() - 1 - i];
                &&& other.token != task.token
                &&& !(state.conditions.until is Some && state.conditions.until->0.token
                    == other.token)
            },
    ensures
        state.after_turns(ready.take(i)).plain_turn(ready[i]).1 is Again,
{
    let before = state.after_turns(ready.take(i));
    assert forall|j: int| 0 <= j < i && #[trigger] ready.take(i)[j] implies {
        let other = state.executor.queue[state.executor.queue.len() - 1 - j];
        &&& other.token != task.token
        &&& !(state.conditions.until is Some && state.conditions.until->0.token == other.token)
    } by {
        assert(ready[j]);
    }
    lemma_after_turns(state, ready.take(i), task);
    assert(before.executor.queue.last() == state.executor.queue[state.executor.queue.len() - 1
        - i]);
    assert(before.executor.futures.dom().contains(task.token));
    law_turn_goes_on(before, ready[i]);
}

proof fn lemma_after_turns<F, W>(state: LoopState<F, W>, ready: Seq<bool>, task: Task)
    requires
        ready.len() < state.executor.queue.len(),
        !(state.conditions.exit_loop && state.conditions.yields),
        !(state.conditions.until is Some && state.conditions.until_satisfied),
        state.executor.futures.dom().contains(task.token),
        forall|i: int|
            0 <= i < ready.len() && #[trigger] ready[i] ==> {
                let other = state.executor.queue[state.executor.queue.len() - 1 - i];
                &&& other.token != task.token
                &&& !(state.conditions.until is Some && state.conditions.until->0.token
                    == other.token)
            },
    ensures
        ({
            let after = state.after_turns(ready);
            &&& after.executor.queue == state.executor.queue.take(
                state.executor.queue.len() - ready.len(),
            )
            &&& after.conditions.until == state.conditions.until
            &&& after.conditions.while_fn == state.conditions.while_fn
            &&& after.conditions.yields == state.conditions.yields
            &&& after.conditions.until_satisfied == state.conditions.until_satisfied
            &&& !(after.conditions.exit_loop && after.conditions.yields)
            &&& forall|token: usize| #[trigger]
                after.executor.futures.dom().contains(token) <==> {
                    &&& state.executor.futures.dom().contains(token)
                    &&& state.executor.futures[token].future is Held ==> forall|i: int|
                        0 <= i < ready.len() && #[trigger] ready[i] ==> state.executor.queue[
                        state.executor.queue.len() - 1 - i].token != token
                }
            &&& forall|token: usize|
                after.executor.futures.dom().contains(token)
                    ==> #[trigger] after.executor.futures[token] == state.executor.futures[token]
        }),
    decreases ready.len(),
{
    let queue = state.executor.queue;
    if ready.len() == 0 {
        assert(queue.take(queue.len() as int) =~= queue);
    } else {
        let earlier = ready.drop_last();
        let last = ready.len() - 1;
        assert forall|i: int| 0 <= i < earlier.len() && #[trigger] earlier[i] implies {
            let other = queue[queue.len() - 1 - i];
            &&& other.token != task.token
            &&& !(state.conditions.until is Some && state.conditions.until->0.token == other.token)
        } by {
            assert(ready[i]);
        }
        lemma_after_turns(state, earlier, task);
        let before = state.after_turns(earlier);
        let taken = queue[queue.len() - 1 - last];
        assert(before.executor.queue.last() == taken);
        assert(before.executor.futures.dom().contains(task.token));
        law_turn_goes_on(before, ready[last]);
        let after = state.after_turns(ready);
        assert(after == before.plain_turn(ready[last]).0);
        assert(after.executor.queue =~= before.executor.queue.drop_last()) by {
            assert(before.executor.queue == after.executor.queue.push(taken));
        }
        assert(after.executor.queue =~= queue.take(queue.len() - ready.len()));
        assert forall|token: usize| #[trigger]
            after.executor.futures.dom().contains(token) <==> {
                &&& state.executor.futures.dom().contains(token)
                &&& state.executor.futures[token].future is Held ==> forall|i: int|
                    0 <= i < ready.len() && #[trigger] ready[i] ==> queue[queue.len() - 1
                        - i].token != token
            } by {
            assert(before.executor.futures.dom().contains(token) ==> before.executor.futures[token]
                == state.executor.futures[token]);
            if before.executor.futures.dom().contains(token) {
                assert forall|i: int|
                    0 <= i < earlier.len() && #[trigger] ready[i]
                        && state.executor.futures[token].future is Held implies queue[queue.len()
                    - 1 - i].token != token by {
                    assert(earlier[i]);
                }
            } else if state.executor.futures.dom().contains(token) {
                let i = choose|i: int|
                    0 <= i < earlier.len() && #[trigger] earlier[i] && queue[queue.len() - 1
                        - i].token == token;
                assert(ready[i]);
            }
        }
    }
}

/// A run without an `until` task runs every task: if each registered task is queued once and its future is
/// in its place, and each future is ready when it is polled, then every one of them is polled, in the
/// order of the queue from its end, and the loop is left with `true` when the last one was, with no task
/// left. `ready` stands for the turns that have passed.
pub proof fn law_start_runs_every_task<F, W>(state: LoopState<F, W>, ready: Seq<bool>)
    requires
        state.conditions.until is None,
        !(state.conditions.exit_loop && state.conditions.yields),
        forall|i: int, j: int|
            0 <= i < j < state.executor.queue.len() ==> state.executor.queue[i].token
                != state.executor.queue[j].token,
        forall|i: int|
            0 <= i < state.executor.queue.len() ==> {
                let token = (#[trigger] state.executor.queue[i]).token;
                state.executor.futures.dom().contains(token)
                    && state.executor.futures[token].future is Held
            },
        forall|token: usize| #[trigger]
            state.executor.futures.dom().contains(token) ==> exists|i: int|
                0 <= i < state.executor.queue.len() && (#[trigger] state.executor.queue[i]).token
                    == token,
        ready.len() < state.executor.queue.len(),
        forall|i: int| 0 <= i < ready.len() ==> #[trigger] ready[i],
    ensures
        ({
            let left = state.executor.queue.len() - ready.len();
            let task = state.executor.queue[left - 1];
            let before = state.after_turns(ready);
            let action = before.step(Event::Resumed).1;
            let (after, next) = before.plain_turn(true);
            &&& action is Poll
            &&& action->task == task
            &&& state.executor.futures[task.token].future == Slot::Held(action->future)
            &&& left > 1 ==> next is Again
            &&& left == 1 ==> {
                &&& next == Action::<F, W>::Return(true)
                &&& forall|token: usize| !#[trigger] after.executor.futures.dom().contains(token)
            }
        }),
{
    let queue = state.executor.queue;
    let left = queue.len() - ready.len();
    let before = state.after_turns(ready);
    law_queued_task_is_polled_though_others_complete(state, ready);
    if left > 1 {
        let more = ready.push(true);
        assert(more.drop_last() =~= ready);
        assert(more.take(ready.len() as int) =~= ready);
        law_queued_task_is_polled_though_others_complete(state, more);
        assert(state.after_turns(more.take(ready.len() as int)).plain_turn(
            more[ready.len() as int],
        ).1 is Again);
    } else {
        lemma_after_turns(state, ready, queue[0]);
        assert forall|token: usize| #[trigger]
            before.executor.futures.dom().contains(token) implies token == queue[0].token by {
            let i = choose|i: int| 0 <= i < queue.len() && (#[trigger] queue[i]).token == token;
            if i > 0 {
                assert(ready[queue.len() - 1 - i]);
                assert(queue[queue.len() - 1 - (queue.len() - 1 - i)].token == token);
            }
        }
        law_ready_poll_removes_the_task(before);
        assert(before.popped().executor.without(queue[0].token).futures =~= Map::empty());
    }
}

} // verus!
