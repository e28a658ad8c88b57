# Yielding async executor

A single-threaded executor for asynchronous tasks that can be configured to yield to its environment
in arbitrary ways, verified with [Verus](https://github.com/verus-lang/verus).

There are a number of async task executors available in Rust's ecosystem. Most of them rely on the
ability to monopolize a thread until completion. This one hands control back when a task completes,
when a function says so, or when no task is left.

## Layout

- `src/task.rs`: tasks and what is known of the types of their futures
- `src/handle.rs`: task handles and the joining of tasks
- `src/executor.rs`: the registered tasks and the queue
- `src/conditions.rs`: the conditions under which control is handed back
- `src/run_loop.rs`: the run loop, one decision at a time
- `src/single_threaded.rs`: the functions that a host calls
- `src/token_order.rs`: sets of tokens as ascending sequences
- `src/laws.rs`, `src/rounds.rs`: what holds of the executor as a whole
- `app/`: a host with one executor per thread, which polls the futures and wakes the tasks
