use std::cmp::Ordering;

use futures::channel::oneshot;
use yielding_async_executor::single_threaded::{
    deliver, evict_all, joined, queued_tasks, queued_tasks_count, reset_yield_conditions, run,
    run_internal, run_left, run_next, run_on, run_until, run_while, set_counter, spawn, start,
    start_left, tasks, tasks_count, until_left, Action, Conditions, Event, Executor, JoinError,
    JoinStep, RunStep, Slot, Task, TypeInfo,
};

type Numbers = Executor<u32>;
type Names = Conditions<&'static str>;

fn fresh() -> (Numbers, Names) {
    (Executor::new(), Conditions::new())
}

fn register(executor: &mut Numbers, future: u32) -> Task {
    let (task, replaced) = executor.register(TypeInfo::new_non_static("number"), future);
    assert_eq!(replaced, None);
    task
}

fn tokens(tasks: Vec<Task>) -> Vec<usize> {
    tasks.iter().map(|task| task.token).collect()
}

/// The token and the future that the action wants polled.
fn polled(action: &Action<u32, &'static str>) -> (usize, u32) {
    match action {
        Action::Poll { task, future } => (task.token, *future),
        _ => panic!("not a poll"),
    }
}

fn returned(action: &Action<u32, &'static str>) -> bool {
    match action {
        Action::Return(done) => *done,
        _ => panic!("not a return"),
    }
}

fn is_again(action: &Action<u32, &'static str>) -> bool {
    matches!(action, Action::Again)
}

/// Hands the polled future back and reports the poll.
fn answer(
    executor: &mut Numbers,
    conditions: &mut Names,
    action: Action<u32, &'static str>,
    ready: bool,
) -> Action<u32, &'static str> {
    match action {
        Action::Poll { task, future } => {
            let spent = executor.take_back(&task, future, ready);
            assert_eq!(spent.is_some(), ready);
            run_internal(executor, conditions, Event::Polled { task, ready })
        }
        _ => panic!("not a poll"),
    }
}

#[test]
fn tokens_are_given_out_in_order() {
    let (mut executor, _) = fresh();
    assert_eq!(register(&mut executor, 10).token, 0);
    assert_eq!(register(&mut executor, 11).token, 1);
    assert_eq!(register(&mut executor, 12).token, 2);
    assert_eq!(tasks_count(&executor), 3);
    assert_eq!(queued_tasks_count(&executor), 3);
    assert_eq!(tokens(tasks(&executor)), vec![0, 1, 2]);
    assert_eq!(tokens(queued_tasks(&executor)), vec![0, 1, 2]);
}

#[test]
fn tasks_are_listed_in_token_order_after_the_tokens_wrap() {
    let (mut executor, _) = fresh();
    set_counter(&mut executor, usize::MAX - 1);
    assert_eq!(register(&mut executor, 10).token, usize::MAX - 1);
    assert_eq!(register(&mut executor, 11).token, usize::MAX);
    assert_eq!(register(&mut executor, 12).token, 0);
    assert_eq!(
        tokens(tasks(&executor)),
        vec![0, usize::MAX - 1, usize::MAX]
    );
    assert_eq!(
        tokens(queued_tasks(&executor)),
        vec![usize::MAX - 1, usize::MAX, 0]
    );
}

#[test]
fn a_token_in_use_gets_a_new_future_and_keeps_its_type_information() {
    let (mut executor, mut conditions) = fresh();
    let (first, replaced) = executor.register(TypeInfo::new_non_static("first"), 10);
    assert_eq!(replaced, None);
    set_counter(&mut executor, first.token);
    let (second, replaced) = executor.register(TypeInfo::new_non_static("second"), 20);
    assert_eq!(replaced, Some(10));
    assert_eq!(second.token, first.token);
    assert_eq!(second.type_info().name(), "second");
    assert_eq!(tasks_count(&executor), 1);
    assert_eq!(queued_tasks_count(&executor), 2);
    assert_eq!(tasks(&executor)[0].type_info().name(), "first");
    assert_eq!(polled(&start(&mut executor, &mut conditions)), (0, 20));
}

#[test]
fn the_task_spawned_last_is_polled_first() {
    let (mut executor, mut conditions) = fresh();
    register(&mut executor, 10);
    register(&mut executor, 11);
    let action = start(&mut executor, &mut conditions);
    assert_eq!(polled(&action), (1, 11));
    assert_eq!(tokens(queued_tasks(&executor)), vec![0]);
    // it stays registered while it is polled
    assert_eq!(tasks_count(&executor), 2);
}

#[test]
fn wakes_are_served_in_order() {
    let (mut executor, mut conditions) = fresh();
    let first = register(&mut executor, 10);
    let second = register(&mut executor, 11);
    let third = register(&mut executor, 12);
    executor.enqueue(second.clone());
    executor.enqueue(first.clone());
    executor.enqueue(second.clone());
    assert_eq!(
        tokens(queued_tasks(&executor)),
        vec![1, 0, 1, 0, 1, third.token]
    );
    let mut action = start(&mut executor, &mut conditions);
    let mut order: Vec<usize> = Vec::new();
    for _ in 0..6 {
        order.push(polled(&action).0);
        action = answer(&mut executor, &mut conditions, action, false);
        assert!(is_again(&action));
        action = run_internal(&mut executor, &mut conditions, Event::Resumed);
    }
    assert_eq!(order, vec![2, 1, 0, 1, 0, 1]);
}

#[test]
fn starved_tasks_are_polled_in_token_order() {
    let (mut executor, mut conditions) = fresh();
    register(&mut executor, 10);
    register(&mut executor, 11);
    register(&mut executor, 12);
    let mut action = start(&mut executor, &mut conditions);
    let mut order: Vec<usize> = Vec::new();
    for _ in 0..9 {
        order.push(polled(&action).0);
        action = answer(&mut executor, &mut conditions, action, false);
        action = run_internal(&mut executor, &mut conditions, Event::Resumed);
    }
    assert_eq!(order, vec![2, 1, 0, 0, 1, 2, 0, 1, 2]);
}

#[test]
fn a_run_ends_when_no_task_is_left() {
    let (mut executor, mut conditions) = fresh();
    register(&mut executor, 10);
    register(&mut executor, 11);
    let action = start(&mut executor, &mut conditions);
    let action = answer(&mut executor, &mut conditions, action, true);
    assert!(is_again(&action));
    let action = run_internal(&mut executor, &mut conditions, Event::Resumed);
    let action = answer(&mut executor, &mut conditions, action, true);
    assert!(returned(&action));
    assert!(conditions.until_satisfied);
    assert_eq!(tasks_count(&executor), 0);
}

#[test]
fn a_new_run_runs_new_tasks() {
    let (mut executor, mut conditions) = fresh();
    assert!(returned(&start(&mut executor, &mut conditions)));
    assert!(conditions.until_satisfied);
    register(&mut executor, 10);
    let action = start(&mut executor, &mut conditions);
    assert_eq!(polled(&action), (0, 10));
    assert!(!conditions.until_satisfied);
    let action = answer(&mut executor, &mut conditions, action, true);
    assert!(returned(&action));
    assert_eq!(tasks_count(&executor), 0);
}

#[test]
fn a_run_whose_task_has_completed_is_not_entered_again_before_a_reset() {
    let (mut executor, mut conditions) = fresh();
    register(&mut executor, 10);
    let awaited = register(&mut executor, 11);
    let action = run_until(&mut executor, &mut conditions, awaited);
    let action = answer(&mut executor, &mut conditions, action, true);
    assert!(returned(&action));
    assert!(returned(&start(&mut executor, &mut conditions)));
    assert!(returned(&run_while(
        &mut executor,
        &mut conditions,
        "never asked"
    )));
    assert_eq!(queued_tasks_count(&executor), 1);
    reset_yield_conditions(&mut conditions);
    assert!(!conditions.until_satisfied);
    assert!(conditions.until.is_none());
    assert!(conditions.while_fn.is_none());
    assert_eq!(polled(&start(&mut executor, &mut conditions)), (0, 10));
}

#[test]
fn a_run_until_ends_with_its_task_alone() {
    let (mut executor, mut conditions) = fresh();
    let awaited = register(&mut executor, 10);
    register(&mut executor, 11);
    let action = run_until(&mut executor, &mut conditions, awaited.clone());
    // another task is ready
    let action = answer(&mut executor, &mut conditions, action, true);
    assert!(is_again(&action));
    assert!(!conditions.until_satisfied);
    let action = run_internal(&mut executor, &mut conditions, Event::Resumed);
    // the task is not ready yet
    let action = answer(&mut executor, &mut conditions, action, false);
    assert!(is_again(&action));
    register(&mut executor, 12);
    let action = run_internal(&mut executor, &mut conditions, Event::Resumed);
    assert_eq!(polled(&action), (2, 12));
    let action = answer(&mut executor, &mut conditions, action, false);
    assert!(is_again(&action));
    let action = run_internal(&mut executor, &mut conditions, Event::Resumed);
    assert_eq!(polled(&action), (awaited.token, 10));
    let action = answer(&mut executor, &mut conditions, action, true);
    assert!(returned(&action));
    assert_eq!(tasks_count(&executor), 1);
    assert_eq!(conditions.until.as_ref().unwrap().token, awaited.token);
}

#[test]
fn a_run_until_returns_at_once_when_its_task_has_completed() {
    let (mut executor, mut conditions) = fresh();
    let awaited = register(&mut executor, 10);
    let action = start(&mut executor, &mut conditions);
    assert!(returned(&answer(
        &mut executor,
        &mut conditions,
        action,
        true
    )));
    register(&mut executor, 11);
    let action = run_until(&mut executor, &mut conditions, awaited);
    assert!(returned(&action));
    assert!(conditions.until_satisfied);
    assert_eq!(tasks_count(&executor), 1);
    assert_eq!(queued_tasks_count(&executor), 1);
}

#[test]
fn a_run_until_does_not_take_an_evicted_task_for_a_completed_one() {
    let (mut executor, mut conditions) = fresh();
    let awaited = register(&mut executor, 10);
    evict_all(&mut executor);
    register(&mut executor, 11);
    let action = run_until(&mut executor, &mut conditions, awaited);
    assert_eq!(polled(&action), (1, 11));
    let action = answer(&mut executor, &mut conditions, action, true);
    assert!(is_again(&action));
    assert!(!conditions.until_satisfied);
}

#[test]
fn a_task_evicted_during_its_poll_completes_if_it_is_ready() {
    let (mut executor, mut conditions) = fresh();
    let task = register(&mut executor, 10);
    let _lent = start(&mut executor, &mut conditions);
    evict_all(&mut executor);
    assert_eq!(executor.take_back(&task, 10, true), Some(10));
    assert!(returned(&run_until(&mut executor, &mut conditions, task)));
}

#[test]
fn a_token_given_out_again_is_no_longer_that_of_an_evicted_task() {
    let (mut executor, mut conditions) = fresh();
    register(&mut executor, 10);
    evict_all(&mut executor);
    set_counter(&mut executor, 0);
    let task = register(&mut executor, 11);
    let action = run_until(&mut executor, &mut conditions, task.clone());
    let action = answer(&mut executor, &mut conditions, action, true);
    assert!(returned(&action));
    assert!(returned(&run_until(&mut executor, &mut conditions, task)));
}

#[test]
fn a_run_nested_in_a_blocking_run_asks_its_while_function_first() {
    let (mut executor, mut conditions) = fresh();
    register(&mut executor, 10);
    let lent = start(&mut executor, &mut conditions);
    assert_eq!(polled(&lent), (0, 10));
    conditions.yields = false;
    // during the poll nothing is queued, and nothing is polled before the function has said yes
    let nested = run_while(&mut executor, &mut conditions, "asked");
    assert!(matches!(nested, Action::Check { condition: "asked" }));
    assert_eq!(queued_tasks_count(&executor), 0);
    conditions.take_back("asked");
    let nested = run_internal(
        &mut executor,
        &mut conditions,
        Event::Checked { proceed: false },
    );
    assert!(!returned(&nested));
    assert_eq!(queued_tasks_count(&executor), 0);
}

#[test]
fn a_run_until_is_entered_again_while_its_task_is_registered() {
    let (mut executor, mut conditions) = fresh();
    let inner = register(&mut executor, 10);
    let outer = register(&mut executor, 11);
    let lent = run_until(&mut executor, &mut conditions, outer.clone());
    assert_eq!(polled(&lent), (1, 11));
    let nested = run_until(&mut executor, &mut conditions, inner.clone());
    let nested = answer(&mut executor, &mut conditions, nested, true);
    assert!(returned(&nested));
    assert!(until_left(&mut executor, &mut conditions, inner.clone(), true).is_none());
    executor.enqueue(outer.clone());
    let action = answer(&mut executor, &mut conditions, lent, false);
    assert!(returned(&action));
    // it was the inner task that has completed
    assert!(until_left(&mut executor, &mut conditions, outer.clone(), false).is_none());
    assert_eq!(conditions.until.as_ref().unwrap().token, inner.token);
    let action = until_left(&mut executor, &mut conditions, outer.clone(), true).unwrap();
    assert_eq!(conditions.until.as_ref().unwrap().token, outer.token);
    assert!(!conditions.until_satisfied);
    assert_eq!(polled(&action), (1, 11));
    let action = answer(&mut executor, &mut conditions, action, true);
    assert!(returned(&action));
    assert!(until_left(&mut executor, &mut conditions, outer, true).is_none());
}

#[test]
fn a_start_is_entered_again_while_tasks_are_left() {
    let (mut executor, mut conditions) = fresh();
    let inner = register(&mut executor, 10);
    let outer = register(&mut executor, 11);
    let lent = start(&mut executor, &mut conditions);
    let nested = run_until(&mut executor, &mut conditions, inner);
    let nested = answer(&mut executor, &mut conditions, nested, true);
    assert!(returned(&nested));
    executor.enqueue(outer.clone());
    let action = answer(&mut executor, &mut conditions, lent, false);
    assert!(returned(&action));
    assert!(start_left(&mut executor, &mut conditions, None, false).is_none());
    let action = start_left(&mut executor, &mut conditions, None, true).unwrap();
    assert!(conditions.until.is_none());
    assert_eq!(polled(&action), (1, 11));
    let action = answer(&mut executor, &mut conditions, action, true);
    assert!(returned(&action));
    assert!(start_left(&mut executor, &mut conditions, None, true).is_none());
    assert!(start_left(&mut executor, &mut conditions, Some(outer), true).is_none());
}

#[test]
fn a_nested_run_replaces_the_task_that_is_waited_for() {
    let (mut executor, mut conditions) = fresh();
    let inner = register(&mut executor, 10);
    let outer = register(&mut executor, 11);
    let action = run_until(&mut executor, &mut conditions, outer);
    assert_eq!(polled(&action), (1, 11));
    // during the poll
    let nested = run_until(&mut executor, &mut conditions, inner);
    assert_eq!(polled(&nested), (0, 10));
    assert!(returned(&answer(
        &mut executor,
        &mut conditions,
        nested,
        true
    )));
    // the loop waits for the inner task now, which has completed
    let action = answer(&mut executor, &mut conditions, action, true);
    assert!(returned(&action));
    assert_eq!(tasks_count(&executor), 0);
}

#[test]
fn the_while_function_is_asked_on_every_turn() {
    let (mut executor, mut conditions) = fresh();
    register(&mut executor, 10);
    let action = run_while(&mut executor, &mut conditions, "asked");
    let action = answer(&mut executor, &mut conditions, action, false);
    match action {
        Action::Check { condition } => {
            assert_eq!(condition, "asked");
            assert!(matches!(conditions.while_fn, Some(Slot::Lent)));
            assert!(conditions.take_back(condition).is_none());
        }
        _ => panic!("the function was not asked"),
    }
    let action = run_internal(
        &mut executor,
        &mut conditions,
        Event::Checked { proceed: true },
    );
    assert!(is_again(&action));
    let action = run_internal(&mut executor, &mut conditions, Event::Resumed);
    let action = answer(&mut executor, &mut conditions, action, false);
    assert!(matches!(action, Action::Check { condition: "asked" }));
    conditions.take_back("asked");
    let action = run_internal(
        &mut executor,
        &mut conditions,
        Event::Checked { proceed: false },
    );
    assert!(!returned(&action));
    assert!(matches!(conditions.while_fn, Some(Slot::Held("asked"))));
    // the run can be restarted, and finds its task again
    assert_eq!(tasks_count(&executor), 1);
    assert!(!conditions.until_satisfied);
}

#[test]
fn a_while_function_that_was_replaced_during_its_call_is_dropped() {
    let (mut executor, mut conditions) = fresh();
    register(&mut executor, 10);
    let action = run_while(&mut executor, &mut conditions, "first");
    let action = answer(&mut executor, &mut conditions, action, false);
    assert!(matches!(action, Action::Check { condition: "first" }));
    reset_yield_conditions(&mut conditions);
    assert_eq!(conditions.take_back("first"), Some("first"));
    assert!(conditions.while_fn.is_none());
}

#[test]
fn a_request_to_exit_is_heeded_and_cleared() {
    let (mut executor, mut conditions) = fresh();
    register(&mut executor, 10);
    conditions.exit_loop = true;
    let action = start(&mut executor, &mut conditions);
    let action = answer(&mut executor, &mut conditions, action, false);
    assert!(!returned(&action));
    assert!(!conditions.exit_loop);
    assert_eq!(tasks_count(&executor), 1);
    // the queue is left as it is
    assert_eq!(queued_tasks_count(&executor), 0);
}

#[test]
fn a_blocking_run_ignores_requests_to_exit() {
    let (mut executor, mut conditions) = fresh();
    conditions.exit_loop = true;
    let started = run(
        &mut executor,
        &mut conditions,
        futures::future::ready(()),
        "ready",
        |_, _| 10u32,
    );
    assert_eq!(started.replaced, None);
    let handle = started.handle;
    let action = started.action;
    assert!(!conditions.yields);
    assert_eq!(handle.task().token, 0);
    assert_eq!(handle.task().type_info().name(), "ready");
    assert_eq!(handle.task().type_info().type_id(), None);
    assert_eq!(conditions.until.as_ref().unwrap().token, 0);
    assert_eq!(polled(&action), (0, 10));
    let action = answer(&mut executor, &mut conditions, action, false);
    assert!(is_again(&action));
    assert!(!conditions.exit_loop);
    let action = run_internal(&mut executor, &mut conditions, Event::Resumed);
    let action = answer(&mut executor, &mut conditions, action, true);
    assert!(returned(&action));
    assert!(run_left(&mut executor, &mut conditions, true).is_none());
    assert!(conditions.yields);
}

#[test]
fn a_blocking_run_that_was_given_up_is_entered_again() {
    let (mut executor, mut conditions) = fresh();
    conditions.while_fn = Some(Slot::Held("left over"));
    let started = run(
        &mut executor,
        &mut conditions,
        futures::future::ready(()),
        "ready",
        |_, _| 10u32,
    );
    let action = answer(&mut executor, &mut conditions, started.action, false);
    assert!(matches!(action, Action::Check { .. }));
    conditions.take_back("left over");
    let action = run_internal(
        &mut executor,
        &mut conditions,
        Event::Checked { proceed: false },
    );
    assert!(!returned(&action));
    // the task was not woken, so it is queued again before it is polled
    assert_eq!(queued_tasks_count(&executor), 0);
    let action = run_left(&mut executor, &mut conditions, false).unwrap();
    assert!(!conditions.yields);
    assert_eq!(polled(&action), (0, 10));
    let action = answer(&mut executor, &mut conditions, action, true);
    assert!(matches!(action, Action::Check { .. }));
    conditions.take_back("left over");
    // the run is over, whatever the function says
    let action = run_internal(
        &mut executor,
        &mut conditions,
        Event::Checked { proceed: false },
    );
    assert!(returned(&action));
    assert!(run_left(&mut executor, &mut conditions, true).is_none());
    assert!(conditions.yields);
}

#[test]
fn a_blocking_run_hands_out_what_was_delivered() {
    let mut executor: Executor<oneshot::Sender<u8>> = Executor::new();
    let mut conditions: Conditions<()> = Conditions::new();
    let started = run(
        &mut executor,
        &mut conditions,
        futures::future::ready(1u8),
        "ready",
        |_, sender| sender,
    );
    let mut handle = started.handle;
    let (task, sender) = match started.action {
        Action::Poll { task, future } => (task, future),
        _ => panic!("not a poll"),
    };
    assert!(executor.take_back(&task, sender, false).is_none());
    // the loop gave up: it is entered again, and the task is queued again before it is polled
    let sender = match run_next(&mut executor, &mut conditions, &mut handle, false) {
        RunStep::Perform(Action::Poll { future, .. }) => future,
        _ => panic!("not a poll"),
    };
    assert!(!conditions.yields);
    assert!(executor.take_back(&task, sender, false).is_none());
    // the loop was left for the sake of another task: the output is not there yet
    conditions.until = None;
    executor.enqueue(task.clone());
    let sender = match run_next(&mut executor, &mut conditions, &mut handle, true) {
        RunStep::Perform(Action::Poll { future, .. }) => future,
        _ => panic!("not a poll"),
    };
    assert!(!conditions.yields);
    assert_eq!(conditions.until.as_ref().unwrap().token, task.token);
    assert_eq!(deliver(sender, 42), Ok(()));
    assert!(matches!(
        run_next(&mut executor, &mut conditions, &mut handle, true),
        RunStep::Complete(42)
    ));
    assert!(conditions.yields);
    // the output is taken once
    assert!(matches!(
        run_next(&mut executor, &mut conditions, &mut handle, true),
        RunStep::Canceled
    ));
}

#[test]
fn a_blocking_run_on_a_completed_task_is_over() {
    let (mut executor, mut conditions) = fresh();
    let task = register(&mut executor, 10);
    let action = run_on(&mut executor, &mut conditions, task.clone());
    assert!(!conditions.yields);
    let action = answer(&mut executor, &mut conditions, action, true);
    assert!(returned(&action));
    assert!(returned(&run_on(&mut executor, &mut conditions, task)));
}

#[test]
fn tokens_go_on_after_an_eviction() {
    let (mut executor, _) = fresh();
    let evicted = register(&mut executor, 10);
    evict_all(&mut executor);
    assert_eq!(register(&mut executor, 11).token, 1);
    executor.enqueue(evicted);
    assert_eq!(tokens(queued_tasks(&executor)), vec![1]);
}

#[test]
fn a_task_evicted_during_its_poll_does_not_come_back() {
    let (mut executor, mut conditions) = fresh();
    register(&mut executor, 10);
    let action = start(&mut executor, &mut conditions);
    let evicted = evict_all(&mut executor);
    assert_eq!(tasks_count(&evicted), 1);
    match action {
        Action::Poll { task, future } => {
            assert_eq!(executor.take_back(&task, future, false), Some(10));
            assert_eq!(tasks_count(&executor), 0);
            // another task has got the token meanwhile
            set_counter(&mut executor, task.token);
            assert_eq!(register(&mut executor, 20).token, task.token);
            assert_eq!(executor.take_back(&task, 10, true), Some(10));
            assert_eq!(tasks_count(&executor), 1);
        }
        _ => panic!("not a poll"),
    }
}

#[test]
fn a_task_whose_future_is_lent_is_not_polled() {
    let (mut executor, mut conditions) = fresh();
    let task = register(&mut executor, 10);
    let action = start(&mut executor, &mut conditions);
    assert_eq!(polled(&action), (0, 10));
    executor.enqueue(task.clone());
    let nested = run_internal(&mut executor, &mut conditions, Event::Resumed);
    assert!(is_again(&nested));
    assert_eq!(executor.take_back(&task, 10, false), None);
    let action = run_internal(&mut executor, &mut conditions, Event::Resumed);
    assert_eq!(polled(&action), (0, 10));
}

#[test]
fn completed_tasks_leave_stale_wakes_that_do_nothing() {
    let (mut executor, mut conditions) = fresh();
    let first = register(&mut executor, 10);
    register(&mut executor, 11);
    executor.enqueue(first.clone());
    let mut action = start(&mut executor, &mut conditions);
    for ready in [false, true] {
        action = answer(&mut executor, &mut conditions, action, ready);
        assert!(is_again(&action));
        action = run_internal(&mut executor, &mut conditions, Event::Resumed);
    }
    // the stale wake of the first task was skipped, and the executor was fed
    assert!(is_again(&action));
    executor.enqueue(first);
    assert_eq!(tokens(queued_tasks(&executor)), vec![1]);
}

#[test]
fn tasks_compare_by_token() {
    let (mut executor, _) = fresh();
    let (first, _) = executor.register(TypeInfo::new_non_static("a"), 10);
    let (second, _) = executor.register(TypeInfo::new_non_static("b"), 11);
    set_counter(&mut executor, 0);
    let (again, _) = executor.register(TypeInfo::new_non_static("c"), 12);
    assert!(first == again);
    assert!(first != second);
    assert!(first < second);
    assert!(second > again);
    assert_eq!(first.partial_cmp(&again), Some(Ordering::Equal));
    assert_eq!(first.cmp(&second), Ordering::Less);
    assert_eq!(second.cmp(&first), Ordering::Greater);
    assert_eq!(first.cmp(&again), Ordering::Equal);
}

#[test]
fn joining_a_task_whose_sender_is_gone() {
    let (mut executor, _) = fresh();
    let (mut handle, _) = spawn(
        &mut executor,
        futures::future::ready(1u8),
        "ready",
        |_, _| 10u32,
    );
    assert!(matches!(
        handle.poll(),
        JoinStep::Ready(Err(JoinError::Canceled))
    ));
}

#[test]
fn joining_a_task_takes_what_was_delivered() {
    let mut executor: Executor<oneshot::Sender<u8>> = Executor::new();
    let mut conditions: Conditions<()> = Conditions::new();
    let (mut handle, _) = spawn(
        &mut executor,
        futures::future::ready(1u8),
        "ready",
        |_, sender| sender,
    );
    assert!(matches!(handle.poll(), JoinStep::Pending));
    match start(&mut executor, &mut conditions) {
        Action::Poll { task, future } => {
            assert_eq!(task.token, handle.task().token);
            assert_eq!(deliver(future, 42), Ok(()));
        }
        _ => panic!("not a poll"),
    }
    assert!(matches!(handle.poll(), JoinStep::Ready(Ok(42))));
    assert!(matches!(
        handle.poll(),
        JoinStep::Ready(Err(JoinError::Canceled))
    ));
}

#[test]
fn what_cannot_be_delivered_is_handed_back() {
    let (sender, receiver) = oneshot::channel::<u8>();
    drop(receiver);
    assert_eq!(deliver(sender, 7), Err(7));
}

#[test]
fn answers_of_the_receiving_half() {
    assert!(matches!(
        joined(Ok(Some(5u8))),
        JoinStep::Ready(Ok(5))
    ));
    assert!(matches!(joined::<u8>(Ok(None)), JoinStep::Pending));
    assert!(matches!(
        joined::<u8>(Err(oneshot::Canceled)),
        JoinStep::Ready(Err(JoinError::Canceled))
    ));
}
