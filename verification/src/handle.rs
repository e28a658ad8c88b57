//! Task handles, through which the outcome of a task is joined.
use crate::task::Task;
use futures::channel::oneshot;
use vstd::prelude::*;

verus! {

/// `futures::channel::oneshot::Sender`, an opaque value to the verifier.
#[verifier::external_type_specification]
#[verifier::external_body]
#[verifier::reject_recursive_types(T)]
pub struct ExSender<T>(oneshot::Sender<T>);

/// `futures::channel::oneshot::Receiver`, an opaque value to the verifier.
#[verifier::external_type_specification]
#[verifier::external_body]
#[verifier::reject_recursive_types(T)]
pub struct ExReceiver<T>(oneshot::Receiver<T>);

/// `futures::channel::oneshot::Canceled`, an opaque value to the verifier.
#[verifier::external_type_specification]
#[verifier::external_body]
pub struct ExCanceled(oneshot::Canceled);

/// `futures::channel::oneshot::channel`, which returns the two halves of a fresh channel.
///
/// Nothing is claimed of the halves: both are opaque. That two halves came out of one call is what
/// contracts state by naming this function in `call_ensures`.
pub assume_specification<T>[ oneshot::channel::<T> ]() -> (oneshot::Sender<T>, oneshot::Receiver<T>);

/// `futures::channel::oneshot::Receiver::try_recv`, which takes what the sending half has sent.
///
/// Nothing is claimed of the result: it rests on what the sending half, which a future owns, has done
/// by then. A value is taken by the call that returns it, so contracts that count on an answer say
/// that it came of one call.
pub assume_specification<T>[ oneshot::Receiver::<T>::try_recv ](
    receiver: &mut oneshot::Receiver<T>,
) -> Result<Option<T>, oneshot::Canceled>;

/// `futures::channel::oneshot::Sender::send`, which sends a value to the receiving half.
///
/// A value that cannot be sent is handed back as it was. When that happens is not claimed: it rests
/// on whether the receiving half is still there.
pub assume_specification<T>[ oneshot::Sender::<T>::send ](
    sender: oneshot::Sender<T>,
    value: T,
) -> (sent: Result<(), T>)
    ensures
        sent matches Err(unsent) ==> unsent == value,
;

/// Task joining error
#[derive(Debug, Clone, Copy, PartialEq, Eq, Structural)]
pub enum JoinError {
    /// Task was canceled
    Canceled,
}

/// What joining a task has come to
#[derive(Debug)]
pub enum JoinStep<T> {
    /// The task has completed or was canceled
    Ready(Result<T, JoinError>),
    /// The task is not done: the joining task has to be woken at once, to look again
    Pending,
}

/// What a receiving half's answer means to whoever joins the task.
pub open spec fn join_step<T>(received: Result<Option<T>, oneshot::Canceled>) -> JoinStep<T> {
    match received {
        Ok(Some(value)) => JoinStep::Ready(Ok(value)),
        Ok(None) => JoinStep::Pending,
        Err(_) => JoinStep::Ready(Err(JoinError::Canceled)),
    }
}

/// Task handle
///
/// A host polls it to wait for task completion.
#[verifier::reject_recursive_types(T)]
pub struct TaskHandle<T> {
    receiver: oneshot::Receiver<T>,
    task: Task,
}

impl<T> TaskHandle<T> {
    /// The task whose handle this is.
    pub closed spec fn spec_task(&self) -> Task {
        self.task
    }

    /// The half of the channel through which the task's outcome arrives.
    pub closed spec fn receiver(&self) -> oneshot::Receiver<T> {
        self.receiver
    }

    pub(crate) fn new(receiver: oneshot::Receiver<T>, task: Task) -> (handle: Self)
        ensures
            handle.receiver() == receiver,
            handle.task() == task,
    {
        TaskHandle { receiver, task }
    }

    /// Returns a copy of task information record
    #[verifier::when_used_as_spec(spec_task)]
    pub fn task(&self) -> (task: Task)
        ensures
            task == self.spec_task(),
    {
        self.task.clone()
    }

    /// Takes the outcome of the task, if there is one
    pub fn poll(&mut self) -> (step: JoinStep<T>)
        ensures
            final(self).task() == old(self).task(),
            exists|receiver: &mut oneshot::Receiver<T>, received: Result<Option<T>, oneshot::Canceled>|
                {
                    &&& *receiver == old(self).receiver()
                    &&& *final(receiver) == final(self).receiver()
                    &&& #[trigger] call_ensures(oneshot::Receiver::<T>::try_recv, (receiver,), received)
                    &&& step == join_step(received)
                    &&& match received {
                        Ok(Some(value)) => step == JoinStep::<T>::Ready(Ok(value)),
                        Ok(None) => step is Pending,
                        Err(_) => step == JoinStep::<T>::Ready(Err(JoinError::Canceled)),
                    }
                },
    {
        let received = self.receiver.try_recv();
        joined(received)
    }
}

/// Sends the output of a task to its handle
///
/// The output is handed back if the handle is gone.
pub fn deliver<T>(sender: oneshot::Sender<T>, output: T) -> (sent: Result<(), T>)
    ensures
        call_ensures(oneshot::Sender::<T>::send, (sender, output), sent),
        sent matches Err(unsent) ==> unsent == output,
{
    sender.send(output)
}

/// Reads a receiving half's answer as the outcome of a task
pub fn joined<T>(received: Result<Option<T>, oneshot::Canceled>) -> (step: JoinStep<T>)
    ensures
        step == join_step(received),
        match received {
            Ok(Some(value)) => step == JoinStep::<T>::Ready(Ok(value)),
            Ok(None) => step is Pending,
            Err(_) => step == JoinStep::<T>::Ready(Err(JoinError::Canceled)),
        },
{
    match received {
        Ok(Some(value)) => JoinStep::Ready(Ok(value)),
        Ok(None) => JoinStep::Pending,
        Err(_) => JoinStep::Ready(Err(JoinError::Canceled)),
    }
}

} // verus!
