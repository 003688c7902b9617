//! A one-shot delay whose waiting is done by a worker outside the driver.
//!
//! The delay itself never blocks. Its first advancement asks the driver to
//! start one worker that sleeps for the configured time and then wakes the
//! driver; every later advancement reports that the delay is over.

use crate::run_loop::{run, Finished};
use crate::step::Step;
use core::time::Duration;
use vstd::prelude::*;

verus! {

/// What one advancement of a delay reports.
#[derive(Debug, PartialEq, Eq)]
pub enum Waited {
    /// The delay is over.
    Ready,
    /// The delay is pending. The driver starts one worker that sleeps this
    /// long and then wakes it.
    PendingSpawn(Duration),
}

/// A delay of a fixed time that remembers whether its worker was asked for.
pub struct WaitFor {
    duration: Duration,
    waited: bool,
}

impl WaitFor {
    /// The time the worker sleeps.
    pub closed spec fn duration(self) -> Duration {
        self.duration
    }

    /// Whether the worker was already asked for.
    pub closed spec fn waited(self) -> bool {
        self.waited
    }

    /// What the next advancement reports.
    pub open spec fn answer(self) -> Waited {
        if self.waited() {
            Waited::Ready
        } else {
            Waited::PendingSpawn(self.duration())
        }
    }

    /// The delay after one advancement.
    pub closed spec fn polled(self) -> WaitFor {
        WaitFor { duration: self.duration, waited: true }
    }

    /// The delay after `n` advancements in a row.
    pub open spec fn polled_times(self, n: nat) -> WaitFor
        decreases n,
    {
        if n == 0 {
            self
        } else {
            self.polled().polled_times((n - 1) as nat)
        }
    }

    /// How many workers `n` advancements in a row ask for.
    pub open spec fn workers(self, n: nat) -> nat
        decreases n,
    {
        if n == 0 {
            0
        } else if self.answer() is PendingSpawn {
            1 + self.polled().workers((n - 1) as nat)
        } else {
            self.polled().workers((n - 1) as nat)
        }
    }

    /// Advances the delay once.
    ///
    /// The first advancement reports `PendingSpawn` with the configured time;
    /// every later one reports `Ready` and asks for nothing.
    pub fn poll(&mut self) -> (r: Waited)
        ensures
            r == old(self).answer(),
            *final(self) == old(self).polled(),
            final(self).waited(),
            final(self).duration() == old(self).duration(),
    {
        if self.waited {
            return Waited::Ready;
        }
        self.waited = true;
        Waited::PendingSpawn(self.duration)
    }
}

impl Waited {
    /// The report as a run loop sees it, without the request to the driver.
    pub open spec fn as_step(self) -> Step<()> {
        match self {
            Waited::Ready => Step::Ready(()),
            Waited::PendingSpawn(_) => Step::Pending,
        }
    }

    /// The report as a run loop sees it, without the request to the driver.
    pub fn step(&self) -> (s: Step<()>)
        ensures
            s == self.as_step(),
    {
        match self {
            Waited::Ready => Step::Ready(()),
            Waited::PendingSpawn(_) => Step::Pending,
        }
    }
}

/// A delay of `duration` that no worker was asked for yet.
pub fn wait_for(duration: Duration) -> (w: WaitFor)
    ensures
        w.duration() == duration,
        !w.waited(),
{
    WaitFor { duration, waited: false }
}

/// One advancement leaves a delay asked-for and keeps its time.
pub proof fn lemma_polled(w: WaitFor)
    ensures
        w.polled().waited(),
        w.polled().duration() == w.duration(),
{
}

/// A delay whose worker was asked for never asks for another: however many
/// advancements follow, each reports `Ready`.
pub proof fn lemma_no_second_worker(w: WaitFor, n: nat)
    requires
        w.waited(),
    ensures
        w.workers(n) == 0,
        w.polled_times(n).waited(),
        w.polled_times(n).answer() == Waited::Ready,
    decreases n,
{
    if n > 0 {
        lemma_no_second_worker(w.polled(), (n - 1) as nat);
    }
}

/// Of any number of advancements of a new delay, the first is pending and asks
/// for a worker that sleeps the configured time, and all of them together ask
/// for exactly one worker.
pub proof fn lemma_exactly_one_worker(w: WaitFor, n: nat)
    requires
        !w.waited(),
        n >= 1,
    ensures
        w.answer() == Waited::PendingSpawn(w.duration()),
        w.workers(n) == 1,
        w.polled_times(n).answer() == Waited::Ready,
{
    lemma_no_second_worker(w.polled(), (n - 1) as nat);
}

/// A run loop that awaits a new delay advances it twice and waits once in
/// between: the delay is over only after the wake that the loop waited for,
/// which the worker gives when it has slept the configured time.
pub proof fn lemma_awaited_delay_waits_once(w: WaitFor)
    requires
        !w.waited(),
    ensures
        run(seq![w.answer().as_step(), w.polled().answer().as_step()]) == Some(
            Finished { polls: 2, waits: 1, value: () },
        ),
{
    let answers = seq![w.answer().as_step(), w.polled().answer().as_step()];
    assert(answers[0] is Pending);
    assert(answers[1] == Step::Ready(()));
    crate::run_loop::lemma_ready_after(answers, 1, ());
}

} // verus!
