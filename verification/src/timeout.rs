//! A race between a watched computation and a timer.
//!
//! On every advancement the watched computation is asked first. Only when it
//! is still pending is the timer asked, so a computation that finishes in the
//! advancement in which the timer fires still wins.

use crate::step::Step;
use vstd::prelude::*;

verus! {

/// How a race against a timer ended.
#[derive(Debug, PartialEq, Eq)]
pub enum TimeoutFuture<O> {
    /// The watched computation finished first, with this value.
    Result(O),
    /// The timer fired while the watched computation was still pending.
    Timeout,
}

/// What the race does once the watched computation has answered.
#[derive(Debug, PartialEq, Eq)]
pub enum Turn<O> {
    /// The race is over; the timer is not asked.
    Finish(TimeoutFuture<O>),
    /// The watched computation is pending; the timer is asked next.
    AskSleep,
}

/// The turn that follows the watched computation's answer.
pub open spec fn future_turn<O>(future: Step<O>) -> Turn<O> {
    match future {
        Step::Ready(output) => Turn::Finish(TimeoutFuture::Result(output)),
        Step::Pending => Turn::AskSleep,
    }
}

/// The report of an advancement in which the timer was asked.
pub open spec fn sleep_turn<O>(sleep: Step<()>) -> Step<TimeoutFuture<O>> {
    match sleep {
        Step::Ready(_) => Step::Ready(TimeoutFuture::Timeout),
        Step::Pending => Step::Pending,
    }
}

/// The report of one whole advancement, given what each child answers when it
/// is asked.
pub open spec fn poll<O>(future: Step<O>, sleep: Step<()>) -> Step<TimeoutFuture<O>> {
    match future_turn(future) {
        Turn::Finish(outcome) => Step::Ready(outcome),
        Turn::AskSleep => sleep_turn(sleep),
    }
}

/// Whether a race that is advanced once per entry, its children answering
/// `futures[i]` and `sleeps[i]` at the advancement `i`, first reports an
/// outcome at the advancement `k`.
pub open spec fn settles_at<O>(futures: Seq<Step<O>>, sleeps: Seq<Step<()>>, k: int) -> bool {
    &&& 0 <= k < futures.len()
    &&& k < sleeps.len()
    &&& poll(futures[k], sleeps[k]) is Ready
    &&& forall|i: int| 0 <= i < k ==> poll(#[trigger] futures[i], sleeps[i]) is Pending
}

/// Decides the first half of an advancement from the watched computation's
/// answer: its value ends the race at once, without a look at the timer.
pub fn after_future<O>(future: Step<O>) -> (turn: Turn<O>)
    ensures
        turn == future_turn(future),
        forall|sleep: Step<()>|
            #![trigger poll(future, sleep)]
            turn matches Turn::Finish(outcome) ==> poll(future, sleep) == Step::Ready(outcome),
{
    match future {
        Step::Ready(output) => Turn::Finish(TimeoutFuture::Result(output)),
        Step::Pending => Turn::AskSleep,
    }
}

/// Decides the second half of an advancement, reached only while the watched
/// computation is pending, from the timer's answer.
pub fn after_sleep<O>(sleep: Step<()>) -> (report: Step<TimeoutFuture<O>>)
    ensures
        report == sleep_turn::<O>(sleep),
        report == poll::<O>(Step::Pending, sleep),
{
    match sleep {
        Step::Ready(_) => Step::Ready(TimeoutFuture::Timeout),
        Step::Pending => Step::Pending,
    }
}

/// A watched computation that finishes before the timer fires wins the race
/// with its own value: if it first answers at the advancement `k` and the
/// timer is pending up to and including `k`, the race reports that value at
/// `k` and nothing earlier.
pub proof fn lemma_completes_before_deadline<O>(
    futures: Seq<Step<O>>,
    sleeps: Seq<Step<()>>,
    k: int,
    value: O,
)
    requires
        0 <= k < futures.len(),
        k < sleeps.len(),
        futures[k] == Step::Ready(value),
        forall|i: int| 0 <= i < k ==> #[trigger] futures[i] is Pending,
        forall|i: int| 0 <= i <= k ==> #[trigger] sleeps[i] is Pending,
    ensures
        settles_at(futures, sleeps, k),
        poll(futures[k], sleeps[k]) == Step::Ready(TimeoutFuture::Result(value)),
{
    assert forall|i: int| 0 <= i < k implies poll(#[trigger] futures[i], sleeps[i]) is Pending by {
        assert(sleeps[i] is Pending);
    }
}

/// A watched computation that has not finished when the timer fires loses
/// the race exactly then, be it late or never to finish: if the timer first
/// answers at the advancement `k`, the race reports the timeout at `k` and is
/// pending at every advancement before.
pub proof fn lemma_times_out_at_deadline<O>(futures: Seq<Step<O>>, sleeps: Seq<Step<()>>, k: int)
    requires
        0 <= k < futures.len(),
        k < sleeps.len(),
        forall|i: int| 0 <= i <= k ==> #[trigger] futures[i] is Pending,
        sleeps[k] is Ready,
        forall|i: int| 0 <= i < k ==> #[trigger] sleeps[i] is Pending,
    ensures
        settles_at(futures, sleeps, k),
        poll(futures[k], sleeps[k]) == Step::Ready(TimeoutFuture::<O>::Timeout),
        forall|i: int| 0 <= i < k ==> poll(#[trigger] futures[i], sleeps[i]) is Pending,
{
    assert(futures[k] is Pending);
    assert forall|i: int| 0 <= i < k implies poll(#[trigger] futures[i], sleeps[i]) is Pending by {
        assert(sleeps[i] is Pending);
    }
}

/// A watched computation that never finishes makes the race time out, at the
/// advancement at which the timer fires and not before.
pub proof fn lemma_never_completing_times_out<O>(
    futures: Seq<Step<O>>,
    sleeps: Seq<Step<()>>,
    k: int,
)
    requires
        0 <= k < futures.len(),
        k < sleeps.len(),
        forall|i: int| 0 <= i < futures.len() ==> #[trigger] futures[i] is Pending,
        sleeps[k] is Ready,
        forall|i: int| 0 <= i < k ==> #[trigger] sleeps[i] is Pending,
    ensures
        settles_at(futures, sleeps, k),
        poll(futures[k], sleeps[k]) == Step::Ready(TimeoutFuture::<O>::Timeout),
        forall|i: int| 0 <= i < k ==> !settles_at(futures, sleeps, i),
{
    lemma_times_out_at_deadline(futures, sleeps, k);
    assert forall|i: int| 0 <= i < k implies !settles_at(futures, sleeps, i) by {
        assert(poll(futures[i], sleeps[i]) is Pending);
    }
}

/// Completion wins a tie: a watched computation that answers in the very
/// advancement in which the timer fires ends the race with its value, never
/// with the timeout.
pub proof fn lemma_completion_wins_tie<O>(
    futures: Seq<Step<O>>,
    sleeps: Seq<Step<()>>,
    k: int,
    value: O,
)
    requires
        0 <= k < futures.len(),
        k < sleeps.len(),
        futures[k] == Step::Ready(value),
        sleeps[k] is Ready,
        forall|i: int| 0 <= i < k ==> #[trigger] futures[i] is Pending,
        forall|i: int| 0 <= i < k ==> #[trigger] sleeps[i] is Pending,
    ensures
        settles_at(futures, sleeps, k),
        poll(futures[k], sleeps[k]) == Step::Ready(TimeoutFuture::Result(value)),
        poll(futures[k], sleeps[k]) != Step::Ready(TimeoutFuture::<O>::Timeout),
{
    assert forall|i: int| 0 <= i < k implies poll(#[trigger] futures[i], sleeps[i]) is Pending by {
        assert(sleeps[i] is Pending);
    }
}

} // verus!
