use std::any::TypeId;
use std::future::Future;
use std::pin::Pin;
use std::sync::{Arc, Mutex};
use std::task::{Context, Poll};

use futures::task::{waker_ref, ArcWake};
use tokio::sync::oneshot;
use yielding_async_executor::single_threaded;
use yielding_async_executor::single_threaded::{
    Action, Conditions, Event, Executor, JoinError, JoinStep, RunStep, Slot, Task, TaskHandle,
};

type Boxed = Pin<Box<dyn Future<Output = ()> + Send>>;
type Condition = Box<dyn FnMut() -> bool + Send>;

/// A host that drives the executor: it polls, calls and wakes.
#[derive(Clone)]
struct Host {
    executor: Arc<Mutex<Executor<Boxed>>>,
    conditions: Arc<Mutex<Conditions<Condition>>>,
}

struct Waking {
    host: Host,
    task: Task,
}

impl ArcWake for Waking {
    fn wake_by_ref(arc_self: &Arc<Self>) {
        arc_self.host.wake(arc_self.task.clone());
    }
}

/// A task handle that can be awaited.
struct Joining<T> {
    handle: TaskHandle<T>,
}

impl<T> Joining<T> {
    fn task(&self) -> Task {
        self.handle.task()
    }
}

impl<T> Unpin for Joining<T> {}

impl<T> Future for Joining<T> {
    type Output = Result<T, JoinError>;

    fn poll(mut self: Pin<&mut Self>, cx: &mut Context<'_>) -> Poll<Self::Output> {
        match self.handle.poll() {
            JoinStep::Ready(outcome) => Poll::Ready(outcome),
            JoinStep::Pending => {
                cx.waker().wake_by_ref();
                Poll::Pending
            }
        }
    }
}

fn package<Fut, T>(fut: Fut, sender: futures::channel::oneshot::Sender<T>) -> Boxed
where
    Fut: Future<Output = T> + Send + 'static,
    T: Send + 'static,
{
    Box::pin(async move {
        let _ = single_threaded::deliver(sender, fut.await);
    })
}

impl Host {
    fn new() -> Self {
        Host {
            executor: Arc::new(Mutex::new(Executor::new())),
            conditions: Arc::new(Mutex::new(Conditions::new())),
        }
    }

    fn wake(&self, task: Task) {
        self.executor.lock().unwrap().enqueue(task);
    }

    fn drive(&self, first: Action<Boxed, Condition>) -> bool {
        let mut action = first;
        loop {
            let event = match action {
                Action::Poll { task, mut future } => {
                    let waking = Arc::new(Waking {
                        host: self.clone(),
                        task: task.clone(),
                    });
                    let waker = waker_ref(&waking);
                    let ready = future
                        .as_mut()
                        .poll(&mut Context::from_waker(&waker))
                        .is_ready();
                    let spent = self
                        .executor
                        .lock()
                        .unwrap()
                        .take_back(&task, future, ready);
                    drop(spent);
                    Event::Polled { task, ready }
                }
                Action::Check { mut condition } => {
                    let proceed = condition();
                    let spent = self.conditions.lock().unwrap().take_back(condition);
                    drop(spent);
                    Event::Checked { proceed }
                }
                Action::Again => Event::Resumed,
                Action::Return(done) => return done,
            };
            action = single_threaded::run_internal(
                &mut self.executor.lock().unwrap(),
                &mut self.conditions.lock().unwrap(),
                event,
            );
        }
    }

    fn spawn<Fut, T>(&self, fut: Fut) -> Joining<T>
    where
        Fut: Future<Output = T> + Send + 'static,
        T: Send + 'static,
    {
        self.spawn_named("future", fut)
    }

    fn spawn_named<Fut, T>(&self, name: &'static str, fut: Fut) -> Joining<T>
    where
        Fut: Future<Output = T> + Send + 'static,
        T: Send + 'static,
    {
        let (handle, replaced) = single_threaded::spawn(
            &mut self.executor.lock().unwrap(),
            fut,
            name,
            package,
        );
        drop(replaced);
        Joining { handle }
    }

    fn run<Fut, T>(&self, fut: Fut) -> T
    where
        Fut: Future<Output = T> + Send + 'static,
        T: Send + 'static,
    {
        let started = single_threaded::run(
            &mut self.executor.lock().unwrap(),
            &mut self.conditions.lock().unwrap(),
            fut,
            "future",
            package,
        );
        drop(started.replaced);
        let mut handle = started.handle;
        let mut action = started.action;
        loop {
            let done = self.drive(action);
            let step = single_threaded::run_next(
                &mut self.executor.lock().unwrap(),
                &mut self.conditions.lock().unwrap(),
                &mut handle,
                done,
            );
            action = match step {
                RunStep::Perform(action) => action,
                RunStep::Complete(value) => return value,
                RunStep::Canceled => unreachable!(),
            };
        }
    }

    fn drive_on(&self, first: Action<Boxed, Condition>, until: Option<Task>) -> bool {
        let mut action = first;
        loop {
            let done = self.drive(action);
            let again = single_threaded::start_left(
                &mut self.executor.lock().unwrap(),
                &mut self.conditions.lock().unwrap(),
                until.clone(),
                done,
            );
            match again {
                Some(next) => action = next,
                None => return done,
            }
        }
    }

    fn start(&self) -> bool {
        let until = self.conditions.lock().unwrap().until.clone();
        let action = single_threaded::start(
            &mut self.executor.lock().unwrap(),
            &mut self.conditions.lock().unwrap(),
        );
        self.drive_on(action, until)
    }

    fn run_until(&self, until: Task) -> bool {
        let mut action = single_threaded::run_until(
            &mut self.executor.lock().unwrap(),
            &mut self.conditions.lock().unwrap(),
            until.clone(),
        );
        loop {
            let done = self.drive(action);
            let again = single_threaded::until_left(
                &mut self.executor.lock().unwrap(),
                &mut self.conditions.lock().unwrap(),
                until.clone(),
                done,
            );
            match again {
                Some(next) => action = next,
                None => return done,
            }
        }
    }

    fn run_while<C>(&self, condition: C) -> bool
    where
        C: FnMut() -> bool + Send + 'static,
    {
        let condition: Condition = Box::new(condition);
        let until = self.conditions.lock().unwrap().until.clone();
        let action = single_threaded::run_while(
            &mut self.executor.lock().unwrap(),
            &mut self.conditions.lock().unwrap(),
            condition,
        );
        self.drive_on(action, until)
    }

    fn reset_yield_conditions(&self) {
        single_threaded::reset_yield_conditions(&mut self.conditions.lock().unwrap());
    }

    fn evict_all(&self) {
        let evicted = single_threaded::evict_all(&mut self.executor.lock().unwrap());
        drop(evicted);
    }

    fn tasks_count(&self) -> usize {
        single_threaded::tasks_count(&self.executor.lock().unwrap())
    }

    fn queued_tasks_count(&self) -> usize {
        single_threaded::queued_tasks_count(&self.executor.lock().unwrap())
    }

    fn tasks(&self) -> Vec<Task> {
        single_threaded::tasks(&self.executor.lock().unwrap())
    }

    fn queued_tasks(&self) -> Vec<Task> {
        single_threaded::queued_tasks(&self.executor.lock().unwrap())
    }
}

#[test]
fn test() {
    let host = Host::new();
    let (sender, receiver) = oneshot::channel::<()>();
    let _handle = host.spawn(async move {
        let _ = receiver.await;
    });
    let _ = sender.send(());
    host.start();
    host.reset_yield_conditions();
    host.evict_all();
}

#[test]
fn test_until() {
    let host = Host::new();
    let (_sender1, receiver1) = oneshot::channel::<()>();
    let _handle1 = host.spawn(async move {
        let _ = receiver1.await;
    });
    let (sender2, receiver2) = oneshot::channel::<()>();
    let handle2 = host.spawn(async move {
        let _ = receiver2.await;
    });
    let _ = sender2.send(());
    host.run_until(handle2.task());
    host.reset_yield_conditions();
    host.evict_all();
}

#[test]
fn test_while() {
    let host = Host::new();
    let (_sender1, receiver1) = oneshot::channel::<()>();
    let _handle1 = host.spawn(async move {
        let _ = receiver1.await;
    });
    let (sender2, receiver2) = oneshot::channel::<()>();
    let _handle2 = host.spawn(async move {
        let _ = receiver2.await;
    });
    let _ = sender2.send(());

    let num = Arc::new(Mutex::new(0u32));
    let counted = num.clone();
    host.run_while(move || {
        let mut num = counted.lock().unwrap();
        *num += 1;
        *num < 6
    });
    assert_eq!(*num.lock().unwrap(), 6);

    host.reset_yield_conditions();

    host.evict_all();
}

#[test]
fn test_counts() {
    let host = Host::new();
    let (sender, mut receiver) = oneshot::channel();
    let (sender2, receiver2) = oneshot::channel::<()>();
    let inside = host.clone();
    let handle1 = host.spawn(async move {
        let _ = receiver2.await;
        let _ = sender.send((inside.tasks_count(), inside.queued_tasks_count()));
    });
    let _handle2 = host.spawn(async move {
        let _ = sender2.send(());
        futures::future::pending::<()>().await; // this will never end
    });
    host.run_until(handle1.task());
    let (tasks_, queued_tasks_) = receiver.try_recv().unwrap();
    // handle1 + handle2
    assert_eq!(tasks_, 2);
    // handle1 is being executed, handle2 has nothing new
    assert_eq!(queued_tasks_, 0);
    // handle1 is gone
    assert_eq!(host.tasks_count(), 1);
    // handle2 still has nothing new
    assert_eq!(host.queued_tasks_count(), 0);
    host.reset_yield_conditions();
    host.evict_all();
}

#[test]
fn evicted_tasks_dont_requeue() {
    let host = Host::new();
    let (_sender, receiver) = oneshot::channel::<()>();
    let handle = host.spawn(async move {
        let _ = receiver.await;
    });
    assert_eq!(host.tasks_count(), 1);
    host.evict_all();
    assert_eq!(host.tasks_count(), 0);
    ArcWake::wake_by_ref(&Arc::new(Waking {
        host: host.clone(),
        task: handle.task(),
    }));
    assert_eq!(host.tasks_count(), 0);
    assert_eq!(host.queued_tasks_count(), 0);
    host.reset_yield_conditions();
    host.evict_all();
}

#[test]
fn token_exhaustion() {
    let host = Host::new();
    single_threaded::set_counter(&mut host.executor.lock().unwrap(), usize::MAX);
    // this should be fine anyway
    let handle0 = host.spawn(async move {});
    // this should NOT crash
    let handle = host.spawn(async move {});
    // new token should be different and wrap back to the beginning
    assert!(handle.task().token != handle0.task().token);
    assert_eq!(handle.task().token, 0);
    host.reset_yield_conditions();
    host.evict_all();
}

#[test]
fn blocking_on() {
    let host = Host::new();
    let (sender, receiver) = oneshot::channel::<u8>();
    let _handle = host.spawn(async move {
        let _ = sender.send(1);
    });
    let result = host.run(async move { receiver.await.unwrap() });
    assert_eq!(result, 1);
    host.reset_yield_conditions();
    host.evict_all();
}

#[test]
fn starvation() {
    let host = Host::new();
    let (sender, receiver) = oneshot::channel();
    let _handle = host.spawn(async move {
        tokio::task::yield_now().await;
        tokio::task::yield_now().await;
        let _ = sender.send(());
    });
    host.run(async move { receiver.await.unwrap() });
    host.reset_yield_conditions();
    host.evict_all();
}

#[test]
fn task_type_info() {
    let host = Host::new();
    let _handle = host.spawn_named(
        "futures_util::future::pending::Pending<()>",
        futures::future::pending::<()>(),
    );
    assert!(host.tasks()[0]
        .type_info()
        .name()
        .contains("future::pending::Pending"));
    assert_eq!(
        host.tasks()[0].type_info().type_id().unwrap(),
        TypeId::of::<futures::future::Pending<()>>()
    );
    host.reset_yield_conditions();
    host.evict_all();
    assert_eq!(host.tasks().len(), 0);
}

#[test]
fn joining() {
    let host = Host::new();
    let (sender, receiver) = oneshot::channel();
    let (sender1, mut receiver1) = oneshot::channel();
    let _handle1 = host.spawn(async move {
        let _ = sender.send(());
    });

    let handle2 = host.spawn(async move {
        let _ = receiver.await;
        100u8
    });

    let handle3 = host.spawn(async move {
        let _ = sender1.send(handle2.await);
    });
    host.run_until(handle3.task());

    assert_eq!(receiver1.try_recv().unwrap().unwrap(), 100);
    host.reset_yield_conditions();

    host.evict_all();
}

#[test]
fn a_task_may_spawn_another() {
    let host = Host::new();
    let inside = host.clone();
    let (sender, mut receiver) = oneshot::channel();
    let _handle = host.spawn(async move {
        let spawned = inside.spawn(async move { 7u8 });
        let _ = sender.send(spawned.await);
    });
    assert!(host.start());
    assert_eq!(receiver.try_recv().unwrap().unwrap(), 7);
    assert_eq!(host.tasks_count(), 0);
}

#[test]
fn a_task_may_evict_all_tasks() {
    let host = Host::new();
    let inside = host.clone();
    let _pending = host.spawn(futures::future::pending::<()>());
    let _evicting = host.spawn(async move {
        inside.evict_all();
    });
    assert!(host.start());
    assert_eq!(host.tasks_count(), 0);
    assert_eq!(host.queued_tasks().len(), 0);
}

#[test]
fn joining_an_evicted_task() {
    let host = Host::new();
    let mut handle = host.spawn(futures::future::pending::<()>());
    assert!(matches!(handle.handle.poll(), JoinStep::Pending));
    host.evict_all();
    assert!(matches!(
        handle.handle.poll(),
        JoinStep::Ready(Err(JoinError::Canceled))
    ));
}

#[test]
fn a_run_while_can_be_restarted() {
    let host = Host::new();
    let _pending = host.spawn(futures::future::pending::<()>());
    let asked = Arc::new(Mutex::new(0u32));
    let asking = asked.clone();
    assert!(!host.run_while(move || {
        let mut asked = asking.lock().unwrap();
        *asked += 1;
        *asked % 3 != 0
    }));
    assert_eq!(*asked.lock().unwrap(), 3);
    assert!(!host.start());
    assert_eq!(*asked.lock().unwrap(), 6);
    assert_eq!(host.tasks_count(), 1);
}

/// Pending at the first poll, and ready at the second. It wakes its task only if it is told to.
struct Twice {
    polled: bool,
    waking: bool,
}

impl Future for Twice {
    type Output = u8;

    fn poll(mut self: Pin<&mut Self>, cx: &mut Context<'_>) -> Poll<u8> {
        if self.polled {
            return Poll::Ready(7);
        }
        self.polled = true;
        if self.waking {
            cx.waker().wake_by_ref();
        }
        Poll::Pending
    }
}

#[test]
fn a_left_over_while_function_does_not_keep_a_run_from_its_value() {
    for waking in [true, false] {
        let host = Host::new();
        let _pending = host.spawn(futures::future::pending::<()>());
        assert!(!host.run_while(|| false));
        let result = host.run(Twice {
            polled: false,
            waking,
        });
        assert_eq!(result, 7);
        assert_eq!(host.tasks_count(), 1);
        assert!(host.conditions.lock().unwrap().yields);
    }
}

#[test]
fn a_task_may_run_another_to_completion() {
    let host = Host::new();
    let inside = host.clone();
    let result = host.run(async move {
        let inner = inside.run(async move { 20u8 });
        tokio::task::yield_now().await;
        inner + 1
    });
    assert_eq!(result, 21);
}

#[test]
fn a_run_until_outlasts_a_run_that_its_task_makes() {
    let host = Host::new();
    let inside = host.clone();
    let _pending = host.spawn(futures::future::pending::<()>());
    let mut outer = host.spawn(async move {
        let inner = inside.run(async move { 20u8 });
        tokio::task::yield_now().await;
        inner + 1
    });
    assert!(host.run_until(outer.task()));
    assert_eq!(host.tasks_count(), 1);
    assert!(matches!(outer.handle.poll(), JoinStep::Ready(Ok(21))));
}

#[test]
fn a_start_outlasts_a_run_that_a_task_makes() {
    let host = Host::new();
    let inside = host.clone();
    let _other = host.spawn(Twice {
        polled: false,
        waking: false,
    });
    let _running = host.spawn(async move {
        let _ = inside.run(async move { 20u8 });
        tokio::task::yield_now().await;
    });
    assert!(host.start());
    assert_eq!(host.tasks_count(), 0);
}

#[test]
fn a_run_until_an_evicted_task_goes_on() {
    let host = Host::new();
    let evicted = host.spawn(async move {});
    host.evict_all();
    let other = host.spawn(async move {});
    let asked = Arc::new(Mutex::new(0u32));
    let asking = asked.clone();
    let condition: Condition = Box::new(move || {
        let mut asked = asking.lock().unwrap();
        *asked += 1;
        *asked < 3
    });
    host.conditions.lock().unwrap().while_fn = Some(Slot::Held(condition));
    assert!(!host.run_until(evicted.task()));
    assert_eq!(*asked.lock().unwrap(), 3);
    assert!(!host.conditions.lock().unwrap().until_satisfied);
    // the other task was run meanwhile
    assert!(host.run_until(other.task()));
    assert_eq!(*asked.lock().unwrap(), 3);
}

#[test]
fn a_second_start_runs_what_was_spawned_since() {
    let host = Host::new();
    let _first = host.spawn(async move {});
    assert!(host.start());
    let _second = host.spawn(async move {});
    assert!(host.start());
    assert_eq!(host.tasks_count(), 0);
}

#[test]
fn a_run_until_a_completed_task_returns() {
    let host = Host::new();
    let _pending = host.spawn(futures::future::pending::<()>());
    let handle = host.spawn(async move {});
    assert!(host.run_until(handle.task()));
    host.reset_yield_conditions();
    assert!(host.run_until(handle.task()));
    assert_eq!(host.tasks_count(), 1);
}

#[test]
fn the_while_function_runs_on_the_loop_that_ends_the_run() {
    let host = Host::new();
    let _handle = host.spawn(async move {});
    let asked = Arc::new(Mutex::new(0u32));
    let asking = asked.clone();
    assert!(host.run_while(move || {
        *asking.lock().unwrap() += 1;
        true
    }));
    assert_eq!(host.tasks_count(), 0);
    assert_eq!(*asked.lock().unwrap(), 1);
}

#[test]
fn evicted_tasks_dont_requeue_when_others_were_spawned_since() {
    let host = Host::new();
    let evicted = host.spawn(futures::future::pending::<()>());
    host.evict_all();
    let _other = host.spawn(futures::future::pending::<()>());
    ArcWake::wake_by_ref(&Arc::new(Waking {
        host: host.clone(),
        task: evicted.task(),
    }));
    assert_eq!(host.queued_tasks_count(), 1);
}
