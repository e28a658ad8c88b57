//! The executor: which tasks are registered, and in what order they are to be polled.
use crate::handle::TaskHandle;
use crate::task::{Task, TypeInfo};
use crate::token_order::{ascends, in_token_order, lemma_in_token_order, lemma_in_token_order_unique};
use futures::channel::oneshot;
use std::any::TypeId;
use std::collections::{BTreeMap, BTreeSet};
use std::future::Future;
use vstd::prelude::*;
use vstd::std_specs::btree::increasing_seq;
use vstd::std_specs::cmp::OrdSpec;
use vstd::std_specs::iter::IteratorSpec;

verus! {

/// A place for something that is lent to the host while the host works on it
pub enum Slot<X> {
    /// The thing is in its place
    Held(X),
    /// The host has it
    Lent,
}

/// What the executor keeps of a registered task
pub struct Entry<F> {
    pub type_info: TypeInfo,
    pub future: Slot<F>,
}

/// Single-threaded executor
///
/// `F` is the form in which the host stores the futures, such as a pinned box.
pub struct Executor<F> {
    counter: usize,
    futures: BTreeMap<usize, Entry<F>>,
    queue: Vec<Task>,
    evictees: BTreeSet<usize>,
}

/// An executor as contracts see it.
#[verifier::ext_equal]
pub struct ExecutorView<F> {
    /// The token that the next task gets.
    pub counter: usize,
    /// The registered tasks by token.
    pub futures: Map<usize, Entry<F>>,
    /// The tasks to poll. The last one is polled first.
    pub queue: Seq<Task>,
    /// The tokens of the tasks that were evicted and so never completed.
    pub evictees: Set<usize>,
}

/// The token that is given out after `token`.
pub open spec fn next_token(token: usize) -> usize {
    if token == usize::MAX {
        0
    } else {
        (token + 1) as usize
    }
}

impl<F> ExecutorView<F> {
    /// An executor that has not given out any token.
    pub open spec fn empty() -> Self {
        ExecutorView {
            counter: 0,
            futures: Map::empty(),
            queue: Seq::empty(),
            evictees: Set::empty(),
        }
    }

    /// After all tasks were removed. Tokens go on from where they were, so that none of the removed
    /// tasks shares its token with a new one before the tokens wrap.
    pub open spec fn evicted(self) -> Self {
        ExecutorView {
            counter: self.counter,
            futures: Map::empty(),
            queue: Seq::empty(),
            evictees: self.evictees.union(self.futures.dom()),
        }
    }

    /// Whether a task has completed: it is not registered any more, and not because it was evicted.
    pub open spec fn completed(self, task: Task) -> bool {
        !self.futures.contains_key(task.token) && !self.evictees.contains(task.token)
    }

    /// The registered task with the given token.
    pub open spec fn task_at(self, token: usize) -> Task {
        Task { token, type_info: self.futures[token].type_info }
    }

    /// The registered tasks, the one with the smallest token first.
    pub open spec fn tasks(self) -> Seq<Task> {
        in_token_order(self.futures.dom()).map_values(|token: usize| self.task_at(token))
    }

    /// After `task` was woken: it waits behind every task that was queued before, provided that its
    /// token is registered.
    pub open spec fn enqueued(self, task: Task) -> Self {
        if self.futures.contains_key(task.token) {
            ExecutorView { queue: seq![task] + self.queue, ..self }
        } else {
            self
        }
    }

    /// The task that the next registration makes.
    pub open spec fn next_task(self, type_info: TypeInfo) -> Task {
        Task { token: self.counter, type_info }
    }

    /// After the registration of a task, which is to be polled before any other. If the token is
    /// still in use then the future is replaced and the registered type information stays.
    pub open spec fn registered(self, type_info: TypeInfo, future: F) -> Self {
        let known = if self.futures.contains_key(self.counter) {
            self.futures[self.counter].type_info
        } else {
            type_info
        };
        ExecutorView {
            counter: next_token(self.counter),
            futures: self.futures.insert(
                self.counter,
                Entry { type_info: known, future: Slot::Held(future) },
            ),
            queue: self.queue.push(self.next_task(type_info)),
            evictees: self.evictees.remove(self.counter),
        }
    }

    /// The future of the task with the given token, if the task is registered and its future is in
    /// its place.
    pub open spec fn future_at(self, token: usize) -> Option<F> {
        if self.futures.contains_key(token) {
            match self.futures[token].future {
                Slot::Held(future) => Some(future),
                Slot::Lent => None,
            }
        } else {
            None
        }
    }

    /// Whether the task with the given token is registered and its future is with the host.
    pub open spec fn is_lent(self, token: usize) -> bool {
        self.futures.contains_key(token) && self.futures[token].future is Lent
    }

    /// With the slot of a registered task replaced.
    pub open spec fn with_slot(self, token: usize, slot: Slot<F>) -> Self {
        ExecutorView {
            futures: self.futures.insert(
                token,
                Entry { type_info: self.futures[token].type_info, future: slot },
            ),
            ..self
        }
    }

    /// Without the task that has the given token, which has completed.
    pub open spec fn without(self, token: usize) -> Self {
        ExecutorView {
            futures: self.futures.remove(token),
            evictees: self.evictees.remove(token),
            ..self
        }
    }

    /// After a polled future was handed back. It goes to its place if it is not ready, and its task
    /// has completed and is removed if it is. If its task was evicted during the poll then there is no
    /// place for it. Nothing changes if another task has got the token since.
    pub open spec fn taken_back(self, task: Task, future: F, ready: bool) -> Self {
        if self.future_at(task.token) is Some {
            self
        } else if ready {
            self.without(task.token)
        } else if self.is_lent(task.token) {
            self.with_slot(task.token, Slot::Held(future))
        } else {
            self
        }
    }

    /// Whether no task is queued though some are registered.
    pub open spec fn starves(self) -> bool {
        self.queue.len() == 0 && !self.futures.is_empty()
    }

    /// After every registered task was woken once, the one with the smallest token first.
    pub open spec fn refilled(self) -> Self {
        ExecutorView { queue: self.tasks().reverse() + self.queue, ..self }
    }
}

impl<F> View for Executor<F> {
    type V = ExecutorView<F>;

    closed spec fn view(&self) -> ExecutorView<F> {
        ExecutorView {
            counter: self.counter,
            futures: self.futures@,
            queue: self.queue@,
            evictees: self.evictees@,
        }
    }
}

/// An executor has finitely many registered tasks.
pub proof fn lemma_finitely_many_tasks<F>(executor: &Executor<F>)
    ensures
        executor@.futures.dom().finite(),
{
}

impl<F> Executor<F> {
    pub fn new() -> (executor: Self)
        ensures
            executor@ == ExecutorView::<F>::empty(),
            executor@.counter == 0,
            executor@.futures == Map::<usize, Entry<F>>::empty(),
            executor@.queue == Seq::<Task>::empty(),
            executor@.evictees == Set::<usize>::empty(),
    {
        Executor {
            counter: 0,
            futures: BTreeMap::new(),
            queue: Vec::new(),
            evictees: BTreeSet::new(),
        }
    }

    /// Queues a task behind all others, provided that it is registered
    pub fn enqueue(&mut self, task: Task)
        ensures
            final(self)@ == old(self)@.enqueued(task),
            final(self)@ == (ExecutorView {
                queue: if old(self)@.futures.contains_key(task.token) {
                    seq![task] + old(self)@.queue
                } else {
                    old(self)@.queue
                },
                ..old(self)@
            }),
    {
        if self.futures.contains_key(&task.token) {
            self.queue.insert(0, task);
        }
    }

    /// Registers a future under the next token
    ///
    /// If the token is still in use then the future that it replaces is returned with the task, for
    /// the host to drop.
    pub fn register(&mut self, type_info: TypeInfo, future: F) -> (made: (Task, Option<F>))
        ensures
            final(self)@ == old(self)@.registered(type_info, future),
            made.0 == old(self)@.next_task(type_info),
            made.1 == old(self)@.future_at(old(self)@.counter),
            made.0 == (Task { token: old(self)@.counter, type_info }),
            final(self)@.counter == if old(self)@.counter == usize::MAX {
                0
            } else {
                old(self)@.counter + 1
            },
            final(self)@.queue == old(self)@.queue.push(made.0),
            final(self)@.evictees == old(self)@.evictees.remove(made.0.token),
            final(self)@.futures == old(self)@.futures.insert(
                made.0.token,
                final(self)@.futures[made.0.token],
            ),
            final(self)@.futures[made.0.token].future == Slot::Held(future),
            final(self)@.futures[made.0.token].type_info == if old(
                self,
            )@.futures.contains_key(made.0.token) {
                old(self)@.futures[made.0.token].type_info
            } else {
                type_info
            },
            made.1 matches Some(replaced) ==> old(self)@.futures.contains_key(made.0.token) && old(
                self,
            )@.futures[made.0.token].future == Slot::Held(replaced),
            made.1 is None ==> !old(self)@.futures.contains_key(made.0.token) || old(
                self,
            )@.futures[made.0.token].future is Lent,
    {
        let token = self.counter;
        self.counter = self.counter.wrapping_add(1);
        let known = match self.futures.get(&token) {
            Some(entry) => entry.type_info,
            None => type_info,
        };
        let entry = Entry { type_info: known, future: Slot::Held(future) };
        let replaced = match self.futures.insert(token, entry) {
            Some(Entry { future: Slot::Held(previous), .. }) => Some(previous),
            _ => None,
        };
        let task = Task { token, type_info };
        self.queue.push(task.clone());
        self.evictees.remove(&token);
        (task, replaced)
    }

    /// Spawns a task
    ///
    /// `package` turns the future, and the half of a channel that its output has to be sent
    /// through, into the form in which the host stores futures. A future that is replaced because its
    /// token is still in use is returned with the handle, for the host to drop.
    pub fn spawn<Fut, T, P>(&mut self, fut: Fut, name: &'static str, package: P) -> (spawned: (
        TaskHandle<T>,
        Option<F>,
    )) where
        Fut: Future<Output = T> + 'static,
        T: 'static,
        P: FnOnce(Fut, oneshot::Sender<T>) -> F,

        requires
            forall|sender: oneshot::Sender<T>| call_requires(package, (fut, sender)),
        ensures
            spawned.1 == old(self)@.future_at(old(self)@.counter),
            exists|type_id: TypeId, sender: oneshot::Sender<T>, future: F|
                {
                    let type_info = TypeInfo { type_id: Some(type_id), name };
                    &&& #[trigger] call_ensures(TypeId::of::<Fut>, (), type_id)
                    &&& call_ensures(oneshot::channel::<T>, (), (sender, spawned.0.receiver()))
                    &&& #[trigger] call_ensures(package, (fut, sender), future)
                    &&& final(self)@ == old(self)@.registered(type_info, future)
                    &&& spawned.0.task() == old(self)@.next_task(type_info)
                },
    {
        let type_info = TypeInfo::new::<Fut>(name);
        let (sender, receiver) = oneshot::channel();
        let future = package(fut, sender);
        let (task, replaced) = self.register(type_info, future);
        (TaskHandle::new(receiver, task), replaced)
    }

    /// Spawns a task whose future may borrow
    ///
    /// `package` turns the future, and the half of a channel that its output has to be sent
    /// through, into the form in which the host stores futures. A future that is replaced because its
    /// token is still in use is returned with the handle, for the host to drop.
    pub fn spawn_non_static<Fut, T, P>(
        &mut self,
        fut: Fut,
        name: &'static str,
        package: P,
    ) -> (spawned: (TaskHandle<T>, Option<F>)) where
        Fut: Future<Output = T>,
        P: FnOnce(Fut, oneshot::Sender<T>) -> F,

        requires
            forall|sender: oneshot::Sender<T>| call_requires(package, (fut, sender)),
        ensures
            spawned.1 == old(self)@.future_at(old(self)@.counter),
            exists|sender: oneshot::Sender<T>, future: F|
                {
                    let type_info = TypeInfo { type_id: None, name };
                    &&& call_ensures(oneshot::channel::<T>, (), (sender, spawned.0.receiver()))
                    &&& #[trigger] call_ensures(package, (fut, sender), future)
                    &&& final(self)@ == old(self)@.registered(type_info, future)
                    &&& spawned.0.task() == old(self)@.next_task(type_info)
                },
    {
        let type_info = TypeInfo::new_non_static(name);
        let (sender, receiver) = oneshot::channel();
        let future = package(fut, sender);
        let (task, replaced) = self.register(type_info, future);
        (TaskHandle::new(receiver, task), replaced)
    }

    /// Whether the task has completed: it is not registered any more, and not because it was evicted
    pub(crate) fn has_completed(&self, task: &Task) -> (completed: bool)
        ensures
            completed == self@.completed(*task),
    {
        !self.futures.contains_key(&task.token) && !self.evictees.contains(&task.token)
    }

    /// Whether the token of the task is registered
    pub(crate) fn is_registered(&self, task: &Task) -> (registered: bool)
        ensures
            registered == self@.futures.contains_key(task.token),
    {
        self.futures.contains_key(&task.token)
    }

    /// Removes all tasks, and returns an executor that holds them
    pub(crate) fn evict_all(&mut self) -> (evicted: Self)
        ensures
            final(self)@ == old(self)@.evicted(),
            evicted@ == (ExecutorView { evictees: Set::empty(), ..old(self)@ }),
    {
        let tasks = self.tasks();
        let mut other = Executor {
            counter: self.counter,
            futures: BTreeMap::new(),
            queue: Vec::new(),
            evictees: BTreeSet::new(),
        };
        std::mem::swap(&mut self.evictees, &mut other.evictees);
        let mut i: usize = 0;
        while i < tasks.len()
            invariant
                i <= tasks.len(),
                tasks@ == old(self)@.tasks(),
                old(self)@.futures.dom().finite(),
                self@ == (ExecutorView { evictees: Set::empty(), ..old(self)@ }),
                other@ == (ExecutorView {
                    counter: old(self)@.counter,
                    evictees: other@.evictees,
                    ..ExecutorView::<F>::empty()
                }),
                forall|token: usize|
                    other@.evictees.contains(token) <==> old(self)@.evictees.contains(token)
                        || in_token_order(old(self)@.futures.dom()).take(i as int).contains(token),
            decreases tasks.len() - i,
        {
            proof {
                let tokens = in_token_order(old(self)@.futures.dom());
                assert(tokens.take(i + 1) =~= tokens.take(i as int).push(tokens[i as int]));
                assert(tokens.take(i + 1).last() == tokens[i as int]);
                assert forall|token: usize| #[trigger]
                    tokens.take(i + 1).contains(token) <==> tokens.take(i as int).contains(token)
                        || token == tokens[i as int] by {
                    vstd::seq_lib::lemma_seq_contains_after_push(
                        tokens.take(i as int),
                        tokens[i as int],
                        token,
                    );
                }
            }
            other.evictees.insert(tasks[i].token);
            i += 1;
        }
        proof {
            let tokens = in_token_order(old(self)@.futures.dom());
            lemma_in_token_order(old(self)@.futures.dom());
            assert(tokens.take(i as int) =~= tokens);
            assert forall|token: usize|
                tokens.contains(token) == old(self)@.futures.contains_key(token) by {
                assert(tokens.to_set().contains(token) == tokens.contains(token));
            }
            assert(other@.evictees =~= old(self)@.evicted().evictees);
        }
        std::mem::swap(self, &mut other);
        other
    }

    /// Takes the task that is to be polled next from the queue
    pub(crate) fn pop(&mut self) -> (task: Option<Task>)
        ensures
            match task {
                Some(task) => {
                    &&& old(self)@.queue.len() > 0
                    &&& task == old(self)@.queue.last()
                    &&& final(self)@ == (ExecutorView {
                        queue: old(self)@.queue.drop_last(),
                        ..old(self)@
                    })
                },
                None => old(self)@.queue.len() == 0 && final(self)@ == old(self)@,
            },
    {
        self.queue.pop()
    }

    /// Lends the future of a task to the host, provided that the task is registered and its future
    /// is in its place
    pub(crate) fn lend(&mut self, task: &Task) -> (future: Option<F>)
        ensures
            future == old(self)@.future_at(task.token),
            final(self)@ == match future {
                Some(_) => old(self)@.with_slot(task.token, Slot::Lent),
                None => old(self)@,
            },
    {
        match self.futures.remove(&task.token) {
            None => None,
            Some(entry) => {
                let type_info = entry.type_info;
                self.futures.insert(task.token, Entry { type_info, future: Slot::Lent });
                match entry.future {
                    Slot::Held(future) => Some(future),
                    Slot::Lent => None,
                }
            },
        }
    }

    /// Takes back a future that was polled
    ///
    /// If it is ready then its task is done and removed. Otherwise it goes back to its place. What
    /// is returned is for the host to drop: a future that is ready, or one whose task was evicted
    /// during the poll.
    pub fn take_back(&mut self, task: &Task, future: F, ready: bool) -> (spent: Option<F>)
        ensures
            final(self)@ == old(self)@.taken_back(*task, future, ready),
            spent == if ready || !old(self)@.is_lent(task.token) {
                Some(future)
            } else {
                None
            },
            final(self)@.counter == old(self)@.counter,
            final(self)@.queue == old(self)@.queue,
            ({
                let known = old(self)@.futures.contains_key(task.token);
                let held = known && old(self)@.futures[task.token].future is Held;
                &&& ready && !held ==> final(self)@.futures == old(self)@.futures.remove(task.token)
                    && final(self)@.evictees == old(self)@.evictees.remove(task.token)
                &&& !ready && known && !held ==> final(self)@.futures == old(self)@.futures.insert(
                    task.token,
                    Entry {
                        type_info: old(self)@.futures[task.token].type_info,
                        future: Slot::Held(future),
                    },
                )
                &&& held || (!ready && !known) ==> final(self)@.futures == old(self)@.futures
                &&& held || !ready ==> final(self)@.evictees == old(self)@.evictees
                &&& spent == if known && !held && !ready {
                    None
                } else {
                    Some(future)
                }
            }),
    {
        match self.futures.remove(&task.token) {
            None => {
                if ready {
                    self.evictees.remove(&task.token);
                }
                Some(future)
            },
            Some(entry) => {
                let type_info = entry.type_info;
                match entry.future {
                    Slot::Held(other) => {
                        self.futures.insert(
                            task.token,
                            Entry { type_info, future: Slot::Held(other) },
                        );
                        Some(future)
                    },
                    Slot::Lent => {
                        if ready {
                            self.evictees.remove(&task.token);
                            Some(future)
                        } else {
                            self.futures.insert(
                                task.token,
                                Entry { type_info, future: Slot::Held(future) },
                            );
                            None
                        }
                    },
                }
            },
        }
    }

    /// Returns the number of registered tasks
    pub fn tasks_count(&self) -> (count: usize)
        ensures
            count == self@.futures.len(),
    {
        self.futures.len()
    }

    /// Returns the number of tasks in the queue
    pub fn queued_tasks_count(&self) -> (count: usize)
        ensures
            count == self@.queue.len(),
    {
        self.queue.len()
    }

    /// Returns the registered tasks, the one with the smallest token first
    pub fn tasks(&self) -> (tasks: Vec<Task>)
        ensures
            self@.futures.dom().finite(),
            tasks@ == self@.tasks(),
            tasks@.len() == self@.futures.len(),
            forall|i: int, j: int| 0 <= i < j < tasks@.len() ==> tasks@[i].token < tasks@[j].token,
            forall|task: Task| #[trigger]
                tasks@.contains(task) <==> self@.futures.contains_key(task.token)
                    && self@.futures[task.token].type_info == task.type_info,
    {
        let mut tasks: Vec<Task> = Vec::new();
        let iter = self.futures.iter();
        let ghost pairs = IteratorSpec::remaining(&iter);
        for (token, entry) in entries: iter
            invariant
                entries.seq() == pairs,
                tasks@.len() == entries.index(),
                forall|i: int|
                    0 <= i < tasks@.len() ==> #[trigger] tasks@[i] == (Task {
                        token: *pairs[i].0,
                        type_info: pairs[i].1.type_info,
                    }),
        {
            tasks.push(Task { token: *token, type_info: entry.type_info });
        }
        proof {
            let tokens = pairs.map_values(|pair: (&usize, &Entry<F>)| *pair.0);
            assert(increasing_seq(tokens));
            assert(ascends(tokens)) by {
                assert forall|i: int, j: int| 0 <= i < j < tokens.len() implies tokens[i]
                    < tokens[j] by {
                    assert(tokens[i].cmp_spec(&tokens[j]) is Less);
                }
            }
            assert forall|token: usize|
                tokens.to_set().contains(token) == self@.futures.contains_key(token) by {
                if tokens.contains(token) {
                    let i = tokens.index_of(token);
                    assert(self@.futures.contains_key(*pairs[i].0));
                }
                if self@.futures.contains_key(token) {
                    let i = pairs.index_of((&token, &self@.futures[token]));
                    assert(tokens[i] == token);
                }
            }
            assert(tokens.to_set() =~= self@.futures.dom());
            lemma_in_token_order_unique(self@.futures.dom(), tokens);
            lemma_in_token_order(self@.futures.dom());
            assert(tasks@ =~= self@.tasks()) by {
                assert forall|i: int| 0 <= i < tasks@.len() implies tasks@[i] == self@.task_at(
                    tokens[i],
                ) by {
                    assert(self@.futures[*pairs[i].0] == *pairs[i].1);
                }
            }
            assert forall|task: Task| #[trigger]
                tasks@.contains(task) <==> self@.futures.contains_key(task.token)
                    && self@.futures[task.token].type_info == task.type_info by {
                if tasks@.contains(task) {
                    let i = tasks@.index_of(task);
                    assert(self@.futures[*pairs[i].0] == *pairs[i].1);
                }
                if self@.futures.contains_key(task.token) && self@.futures[task.token].type_info
                    == task.type_info {
                    assert(tokens.to_set().contains(task.token));
                    let i = tokens.index_of(task.token);
                    assert(self@.futures[*pairs[i].0] == *pairs[i].1);
                    assert(tasks@[i] == task);
                }
            }
        }
        tasks
    }

    /// Returns the queued tasks, the one to poll first last
    pub fn queued_tasks(&self) -> (tasks: Vec<Task>)
        ensures
            tasks@ == self@.queue,
    {
        let mut tasks: Vec<Task> = Vec::new();
        for i in 0..self.queue.len()
            invariant
                tasks@ == self.queue@.take(i as int),
        {
            tasks.push(self.queue[i].clone());
            assert(self.queue@.take(i + 1) =~= self.queue@.take(i as int).push(self.queue@[i as int]));
        }
        assert(self.queue@.take(self.queue@.len() as int) =~= self.queue@);
        tasks
    }

    /// Whether no task is registered
    pub(crate) fn is_empty(&self) -> (empty: bool)
        ensures
            empty == self@.futures.is_empty(),
    {
        self.futures.is_empty()
    }

    /// Whether no task is queued though some are registered
    pub(crate) fn is_starving(&self) -> (starving: bool)
        ensures
            starving == self@.starves(),
    {
        self.queue.is_empty() && !self.futures.is_empty()
    }

    /// Wakes every registered task, the one with the smallest token first
    pub(crate) fn refill(&mut self)
        ensures
            final(self)@ == old(self)@.refilled(),
    {
        let tasks = self.tasks();
        let mut i: usize = 0;
        while i < tasks.len()
            invariant
                i <= tasks.len(),
                tasks@ == old(self)@.tasks(),
                old(self)@.futures.dom().finite(),
                self@ == (ExecutorView {
                    queue: tasks@.take(i as int).reverse() + old(self)@.queue,
                    ..old(self)@
                }),
            decreases tasks.len() - i,
        {
            let ghost before = self@;
            self.enqueue(tasks[i].clone());
            proof {
                let tokens = in_token_order(before.futures.dom());
                lemma_in_token_order(before.futures.dom());
                assert(tokens.to_set().contains(tokens[i as int]));
                assert(tasks@.take(i + 1).reverse() =~= seq![tasks@[i as int]] + tasks@.take(
                    i as int,
                ).reverse());
                assert(self@.queue =~= tasks@.take(i + 1).reverse() + old(self)@.queue);
            }
            i += 1;
        }
        assert(tasks@.take(i as int) =~= tasks@);
    }

    /// Sets the token that the next task gets
    pub fn set_counter(&mut self, counter: usize)
        ensures
            final(self)@ == (ExecutorView { counter, ..old(self)@ }),
    {
        self.counter = counter;
    }
}

} // verus!
