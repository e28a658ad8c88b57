//! The conditions under which the executor hands control back.
use crate::executor::Slot;
use crate::task::Task;
use vstd::prelude::*;

verus! {

/// Execution conditions
///
/// `W` is the form in which the host stores a while function, such as a box.
#[verifier::ext_equal]
pub struct Conditions<W> {
    /// The task whose completion ends a run. Without one, a run ends when no task is left.
    pub until: Option<Task>,
    /// Whether the above has come about
    pub until_satisfied: bool,
    /// A run ends when this function returns `false`
    pub while_fn: Option<Slot<W>>,
    /// Whether a request to exit the loop is heeded
    pub yields: bool,
    /// Whether the loop was requested to exit
    pub exit_loop: bool,
}

impl<W> Conditions<W> {
    /// No conditions but that all tasks have to be completed.
    pub open spec fn initial() -> Self {
        Conditions {
            until: None,
            until_satisfied: false,
            while_fn: None,
            yields: true,
            exit_loop: false,
        }
    }

    pub fn new() -> (conditions: Self)
        ensures
            conditions == Self::initial(),
            conditions.until is None && !conditions.until_satisfied,
            conditions.while_fn is None,
            conditions.yields && !conditions.exit_loop,
    {
        Conditions {
            until: None,
            until_satisfied: false,
            while_fn: None,
            yields: true,
            exit_loop: false,
        }
    }

    /// Whether `task` is the one whose completion ends a run.
    pub open spec fn awaits(self, task: Task) -> bool {
        self.until matches Some(until) && until.token == task.token
    }

    /// Whether `task` is the one whose completion ends a run
    pub(crate) fn is_until(&self, task: &Task) -> (matching: bool)
        ensures
            matching == self.awaits(*task),
    {
        match &self.until {
            Some(until) => until.token == task.token,
            None => false,
        }
    }

    /// The while function, if there is one and it is in its place.
    pub open spec fn while_fn_at_hand(self) -> Option<W> {
        match self.while_fn {
            Some(Slot::Held(condition)) => Some(condition),
            _ => None,
        }
    }

    /// Lends the while function to the host, if there is one and it is in its place
    pub(crate) fn lend_while_fn(&mut self) -> (condition: Option<W>)
        ensures
            condition == old(self).while_fn_at_hand(),
            *final(self) == match condition {
                Some(_) => Conditions { while_fn: Some(Slot::Lent), ..*old(self) },
                None => *old(self),
            },
    {
        match self.while_fn.take() {
            Some(slot) => {
                self.while_fn = Some(Slot::Lent);
                match slot {
                    Slot::Held(condition) => Some(condition),
                    Slot::Lent => None,
                }
            },
            None => None,
        }
    }

    /// After a while function that was called was handed back. If it was unset or replaced during
    /// the call then there is no place for it.
    pub open spec fn taken_back(self, condition: W) -> Self {
        if self.while_fn == Some(Slot::<W>::Lent) {
            Conditions { while_fn: Some(Slot::Held(condition)), ..self }
        } else {
            self
        }
    }

    /// Takes back a while function that was called
    ///
    /// What is returned is for the host to drop: a while function that was unset or replaced during
    /// the call.
    pub fn take_back(&mut self, condition: W) -> (spent: Option<W>)
        ensures
            *final(self) == old(self).taken_back(condition),
            spent == if old(self).while_fn == Some(Slot::<W>::Lent) {
                None
            } else {
                Some(condition)
            },
            *final(self) == (Conditions {
                while_fn: if old(self).while_fn == Some(Slot::<W>::Lent) {
                    Some(Slot::Held(condition))
                } else {
                    old(self).while_fn
                },
                ..*old(self)
            }),
    {
        let awaited = match &self.while_fn {
            Some(Slot::Lent) => true,
            _ => false,
        };
        if awaited {
            self.while_fn = Some(Slot::Held(condition));
            None
        } else {
            Some(condition)
        }
    }

    /// Clears a request to exit the loop, and tells whether it has to be heeded
    pub(crate) fn take_exit_request(&mut self) -> (heeded: bool)
        ensures
            heeded == (old(self).exit_loop && old(self).yields),
            *final(self) == (Conditions { exit_loop: false, ..*old(self) }),
    {
        let requested = self.exit_loop;
        self.exit_loop = false;
        requested && self.yields
    }
}

} // verus!
