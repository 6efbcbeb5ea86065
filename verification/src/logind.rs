//! What the login manager says: when to lock, and when the machine sleeps.
use vstd::prelude::*;

verus! {

/// A signal of the login manager.
#[derive(Clone, Copy, Debug, PartialEq, Eq, Structural)]
pub enum Signal {
    /// The machine is about to sleep, or has woken up. There is nothing if the signal could not be
    /// read.
    PrepareForSleep(Option<bool>),
    Lock,
    Unlock,
}

/// Something to do.
#[derive(Clone, Copy, Debug, PartialEq, Eq, Structural)]
pub enum Action {
    /// Hand the inhibitor of sleep to the lock screen.
    SendInhibit(u64),
    SendLock,
    SendUnlock,
    /// Get a new inhibitor of sleep.
    Acquire,
    /// Have the clock read.
    SendTick,
}

/// What is kept from signal to signal: the inhibitor of sleep, until it is handed on.
pub struct Handler {
    pub inhibit_opt: Option<u64>,
}

impl Handler {
    /// What a signal does. Before the machine sleeps, the lock screen gets the inhibitor and locks
    /// the session; after it has woken up, there is a new inhibitor, and the clock is read.
    pub open spec fn handled(self, old: Handler, signal: Signal, actions: Seq<Action>) -> bool {
        match signal {
            Signal::PrepareForSleep(Some(true)) => {
                &&& self.inhibit_opt is None
                &&& actions == (match old.inhibit_opt {
                    Some(inhibitor) => seq![Action::SendInhibit(inhibitor), Action::SendLock],
                    None => seq![Action::SendLock],
                })
            },
            Signal::PrepareForSleep(Some(false)) => {
                &&& self == old
                &&& actions == (if old.inhibit_opt is None {
                    seq![Action::Acquire, Action::SendTick]
                } else {
                    seq![Action::SendTick]
                })
            },
            Signal::PrepareForSleep(None) => self == old && actions.len() == 0,
            Signal::Lock => self == old && actions == seq![Action::SendLock],
            Signal::Unlock => self == old && actions == seq![Action::SendUnlock],
        }
    }

    /// Handles a signal.
    pub fn handle(&mut self, signal: Signal) -> (actions: Vec<Action>)
        ensures
            final(self).handled(*old(self), signal, actions@),
    {
        let mut actions: Vec<Action> = Vec::new();
        match signal {
            Signal::PrepareForSleep(Some(true)) => {
                if let Some(inhibitor) = self.inhibit_opt {
                    actions.push(Action::SendInhibit(inhibitor));
                }
                self.inhibit_opt = None;
                actions.push(Action::SendLock);
                proof {
                    assert(actions@ == (match old(self).inhibit_opt {
                        Some(inhibitor) => seq![Action::SendInhibit(inhibitor), Action::SendLock],
                        None => seq![Action::SendLock],
                    }));
                }
            },
            Signal::PrepareForSleep(Some(false)) => {
                if self.inhibit_opt.is_none() {
                    actions.push(Action::Acquire);
                }
                actions.push(Action::SendTick);
                proof {
                    assert(actions@ == (if self.inhibit_opt is None {
                        seq![Action::Acquire, Action::SendTick]
                    } else {
                        seq![Action::SendTick]
                    }));
                }
            },
            Signal::PrepareForSleep(None) => {},
            Signal::Lock => {
                actions.push(Action::SendLock);
                proof {
                    assert(actions@ == seq![Action::SendLock]);
                }
            },
            Signal::Unlock => {
                actions.push(Action::SendUnlock);
                proof {
                    assert(actions@ == seq![Action::SendUnlock]);
                }
            },
        }
        actions
    }

    /// Takes over a new inhibitor of sleep.
    pub fn acquired(&mut self, inhibitor: u64)
        ensures
            final(self).inhibit_opt == Some(inhibitor),
    {
        self.inhibit_opt = Some(inhibitor);
    }
}

/// An inhibitor is handed on once: if the machine is about to sleep again before a new one has been
/// acquired, the lock screen only locks.
pub proof fn law_inhibitor_is_handed_on_once(
    old: Handler,
    new: Handler,
    first: Seq<Action>,
    later: Handler,
    second: Seq<Action>,
)
    requires
        new.handled(old, Signal::PrepareForSleep(Some(true)), first),
        later.handled(new, Signal::PrepareForSleep(Some(true)), second),
    ensures
        second == seq![Action::SendLock],
{
}

/// Sleep is always preceded by a lock.
pub proof fn law_sleep_locks(old: Handler, new: Handler, actions: Seq<Action>)
    requires
        new.handled(old, Signal::PrepareForSleep(Some(true)), actions),
    ensures
        actions.last() == Action::SendLock,
{
}

}
