//! The run loop of a single task and the wake permit it sleeps on.
//!
//! The loop advances its computation, stops on a value and otherwise waits
//! to be woken before it advances again. A wake is a stored permit: one that
//! arrives before the loop starts to wait is kept, and the wait that follows
//! returns at once.

use crate::step::Step;
use vstd::prelude::*;

verus! {

/// What can happen to a permit: a wake through any copy of the wake handle,
/// from any thread, or a take by the loop.
pub enum Signal {
    Wake,
    Take,
}

/// The single-slot permit behind a wake handle.
///
/// Every copy of the wake handle stores into the same permit, and the loop
/// alone takes from it.
#[derive(Debug)]
pub struct Permit {
    stored: bool,
}

impl Permit {
    /// Whether a wake is stored and not yet taken.
    pub closed spec fn stored(self) -> bool {
        self.stored
    }

    /// The permit after a wake.
    pub closed spec fn woken(self) -> Permit {
        Permit { stored: true }
    }

    /// The permit after the loop tried to take a wake from it.
    pub closed spec fn taken(self) -> Permit {
        Permit { stored: false }
    }

    /// The permit after the signals of `history`, in their order.
    pub open spec fn after(self, history: Seq<Signal>) -> Permit
        decreases history.len(),
    {
        if history.len() == 0 {
            self
        } else {
            match history.last() {
                Signal::Wake => self.after(history.drop_last()).woken(),
                Signal::Take => self.after(history.drop_last()).taken(),
            }
        }
    }

    /// A permit that holds no wake.
    pub fn new() -> (p: Permit)
        ensures
            !p.stored(),
    {
        Permit { stored: false }
    }

    /// Stores a wake. Any number of wakes before the next take leave one
    /// stored wake.
    pub fn wake(&mut self)
        ensures
            *final(self) == old(self).woken(),
            final(self).stored(),
    {
        self.stored = true;
    }

    /// Takes the stored wake, if there is one. The loop goes on when this
    /// returns `true` and waits for the next wake when it returns `false`.
    pub fn take(&mut self) -> (woken: bool)
        ensures
            woken == old(self).stored(),
            *final(self) == old(self).taken(),
            !final(self).stored(),
    {
        let woken = self.stored;
        self.stored = false;
        woken
    }
}

/// What the loop does after an advancement.
#[derive(Debug, PartialEq, Eq)]
pub enum Drive<T> {
    /// Stop and report this value.
    Finish(T),
    /// Wait for a wake, then advance again.
    Wait,
}

/// How a run of the loop ended.
pub struct Finished<T> {
    /// The advancements made, the last one included.
    pub polls: nat,
    /// The waits made between them.
    pub waits: nat,
    /// The value reported.
    pub value: T,
}

/// The loop's move after the computation answered `answer`.
pub open spec fn drive<T>(answer: Step<T>) -> Drive<T> {
    match answer {
        Step::Ready(value) => Drive::Finish(value),
        Step::Pending => Drive::Wait,
    }
}

/// The run of the loop over a computation that answers `answers[i]` at its
/// advancement `i`: how it ends, or `None` when every answer is pending and
/// the loop is still waiting.
pub open spec fn run<T>(answers: Seq<Step<T>>) -> Option<Finished<T>>
    decreases answers.len(),
{
    if answers.len() == 0 {
        None
    } else {
        match drive(answers[0]) {
            Drive::Finish(value) => Some(Finished { polls: 1, waits: 0, value }),
            Drive::Wait => match run(answers.drop_first()) {
                Some(rest) => Some(
                    Finished { polls: rest.polls + 1, waits: rest.waits + 1, value: rest.value },
                ),
                None => None,
            },
        }
    }
}

/// Decides the loop's move after an advancement: a value stops it, a pending
/// answer sends it to wait.
pub fn after_poll<T>(answer: Step<T>) -> (next: Drive<T>)
    ensures
        next == drive(answer),
{
    match answer {
        Step::Ready(value) => Drive::Finish(value),
        Step::Pending => Drive::Wait,
    }
}

/// No wake is lost: after a wake, however early it came, the permit holds
/// it, so the take that follows finds it and the loop does not wait.
pub proof fn lemma_wake_is_kept(p: Permit)
    ensures
        p.woken().stored(),
{
}

/// No wake is lost, whatever else happens: a wake that no take has followed
/// is still stored at the end of the history, however many other wakes came
/// before or after it. The loop's next take finds it and the loop goes on.
pub proof fn lemma_no_wake_is_lost(p: Permit, history: Seq<Signal>, wake: int)
    requires
        0 <= wake < history.len(),
        history[wake] is Wake,
        forall|later: int| wake < later < history.len() ==> #[trigger] history[later] is Wake,
    ensures
        p.after(history).stored(),
{
    assert(history.last() is Wake);
}

/// One take answers for all the wakes before it: a history that ends in a
/// take leaves nothing stored, so the take after it makes the loop wait.
pub proof fn lemma_take_ends_the_history(p: Permit, history: Seq<Signal>)
    requires
        history.len() > 0,
        history.last() is Take,
    ensures
        !p.after(history).stored(),
{
}

/// Wakes coalesce: two wakes in a row leave the permit as one does.
pub proof fn lemma_wakes_coalesce(p: Permit)
    ensures
        p.woken().woken() == p.woken(),
{
}

/// A take uses the permit up: one wake lets the loop through once, and a
/// second take without a wake in between finds nothing, so the loop waits.
pub proof fn lemma_take_uses_up(p: Permit)
    ensures
        !p.taken().stored(),
        !p.woken().taken().stored(),
        p.taken().taken() == p.taken(),
{
}

/// A computation that is pending `n` times and then ready makes the loop
/// advance exactly `n + 1` times, wait exactly `n` times and report the
/// computation's value.
pub proof fn lemma_ready_after<T>(answers: Seq<Step<T>>, n: nat, value: T)
    requires
        n < answers.len(),
        forall|i: int| 0 <= i < n ==> #[trigger] answers[i] is Pending,
        answers[n as int] == Step::Ready(value),
    ensures
        run(answers) == Some(Finished { polls: n + 1, waits: n, value }),
    decreases n,
{
    if n > 0 {
        let rest = answers.drop_first();
        assert(answers[0] is Pending);
        assert forall|i: int| 0 <= i < n - 1 implies #[trigger] rest[i] is Pending by {
            assert(answers[i + 1] is Pending);
        }
        lemma_ready_after(rest, (n - 1) as nat, value);
    }
}

/// A computation that is always pending keeps the loop waiting: no run over
/// such answers ends.
pub proof fn lemma_never_ready<T>(answers: Seq<Step<T>>)
    requires
        forall|i: int| 0 <= i < answers.len() ==> #[trigger] answers[i] is Pending,
    ensures
        run(answers) is None,
    decreases answers.len(),
{
    if answers.len() > 0 {
        let rest = answers.drop_first();
        assert(answers[0] is Pending);
        assert forall|i: int| 0 <= i < rest.len() implies #[trigger] rest[i] is Pending by {
            assert(answers[i + 1] is Pending);
        }
        lemma_never_ready(rest);
    }
}

} // verus!
