//! A bounded queue of tasks with backpressure.
//!
//! The queue is a bounded channel whose two ends live in one pool, so the
//! pool alone fills and drains it. Its operations never wait: where a caller
//! would have to suspend, they answer `Pending` and leave the waiting, and
//! the bound on it, to the caller.

use crate::step::Step;
use tokio::sync::mpsc::error::{TryRecvError, TrySendError};
use tokio::sync::mpsc::{Receiver, Sender};
use vstd::prelude::*;

verus! {

/// A task is known by its number.
pub type Task = u64;

/// The largest capacity a pool can be made with.
pub const MAX_QUEUE_SIZE: usize = usize::MAX / 8;

/// How long an enqueue waits for room before it gives up, in milliseconds.
pub const CREATE_TIMEOUT_MILLIS: u64 = 100;

/// `tokio::sync::mpsc::Receiver`, the receiving end of a bounded channel,
/// held as an opaque value.
#[verifier::external_type_specification]
#[verifier::external_body]
#[verifier::reject_recursive_types(T)]
pub struct ExReceiver<T>(Receiver<T>);

/// `tokio::sync::mpsc::Sender`, a sending end of a bounded channel, held as
/// an opaque value.
#[verifier::external_type_specification]
#[verifier::external_body]
#[verifier::reject_recursive_types(T)]
pub struct ExSender<T>(Sender<T>);

/// The tasks buffered in the channel that `tasks` receives from, oldest first.
pub uninterp spec fn channel_items(tasks: Receiver<Task>) -> Seq<Task>;

/// The capacity that the channel of `tasks` was made with.
pub uninterp spec fn channel_bound(tasks: Receiver<Task>) -> nat;

/// Whether the receiving end `tasks` was closed.
pub uninterp spec fn channel_closed(tasks: Receiver<Task>) -> bool;

/// The task that a closed queue handed back.
#[derive(Debug, PartialEq, Eq)]
pub struct SendError(pub Task);

/// What a pool is, seen from outside.
pub struct Queue {
    /// The tasks that were accepted and not yet delivered, oldest first.
    pub queued: Seq<Task>,
    /// The number of tasks the queue has room for.
    pub capacity: nat,
    /// Whether the queue was closed: it accepts nothing more and ends once
    /// it is drained.
    pub closed: bool,
}

impl Queue {
    /// The queue never holds more than its capacity.
    pub open spec fn bounded(self) -> bool {
        self.queued.len() <= self.capacity
    }

    /// What an enqueue of `task` answers: the task back from a closed queue,
    /// `Pending` from a full one, and acceptance otherwise.
    pub open spec fn create_answer(self, task: Task) -> Step<Result<(), SendError>> {
        if self.closed {
            Step::Ready(Err(SendError(task)))
        } else if self.queued.len() >= self.capacity {
            Step::Pending
        } else {
            Step::Ready(Ok(()))
        }
    }

    /// The queue after an enqueue of `task`: an accepted task stands last,
    /// and a task that was not accepted leaves the queue as it was.
    pub open spec fn create(self, task: Task) -> Queue {
        if self.create_answer(task) == Step::Ready(Ok::<(), SendError>(())) {
            Queue { queued: self.queued.push(task), ..self }
        } else {
            self
        }
    }

    /// What a dequeue answers: the oldest task if there is one, the end of
    /// the stream from a closed and drained queue, and `Pending` otherwise.
    pub open spec fn pull_answer(self) -> Step<Option<Task>> {
        if self.queued.len() > 0 {
            Step::Ready(Some(self.queued[0]))
        } else if self.closed {
            Step::Ready(None)
        } else {
            Step::Pending
        }
    }

    /// The queue after a dequeue: the oldest task, if there was one, is gone.
    pub open spec fn pull(self) -> Queue {
        if self.queued.len() > 0 {
            Queue { queued: self.queued.drop_first(), ..self }
        } else {
            self
        }
    }

    /// The queue after it was closed.
    pub open spec fn close(self) -> Queue {
        Queue { closed: true, ..self }
    }

    /// The queue after an enqueue of each of `tasks`, in their order.
    pub open spec fn create_all(self, tasks: Seq<Task>) -> Queue
        decreases tasks.len(),
    {
        if tasks.len() == 0 {
            self
        } else {
            self.create(tasks[0]).create_all(tasks.drop_first())
        }
    }

    /// The queue after `n` dequeues in a row.
    pub open spec fn pull_times(self, n: nat) -> Queue
        decreases n,
    {
        if n == 0 {
            self
        } else {
            self.pull().pull_times((n - 1) as nat)
        }
    }

    /// The tasks that `n` dequeues in a row deliver, in the order in which
    /// they are delivered.
    pub open spec fn delivered(self, n: nat) -> Seq<Task>
        decreases n,
    {
        if n == 0 {
            Seq::empty()
        } else {
            match self.pull_answer() {
                Step::Ready(Some(task)) => seq![task] + self.pull().delivered((n - 1) as nat),
                _ => self.pull().delivered((n - 1) as nat),
            }
        }
    }
}

/// The outcome of one attempt to send.
enum TrySend {
    Sent,
    Full(Task),
    Closed(Task),
}

/// The outcome of one attempt to receive.
enum TryRecv {
    Task(Task),
    Empty,
    Disconnected,
}

/// `tokio::sync::mpsc::channel`: a new channel is open, holds nothing and
/// has the capacity it was asked for. The call panics on a capacity of zero
/// or above `usize::MAX >> 3`, which `requires` leaves out.
#[verifier::external_body]
fn channel(buffer: usize) -> (ends: (Sender<Task>, Receiver<Task>))
    requires
        0 < buffer <= MAX_QUEUE_SIZE,
    ensures
        channel_items(ends.1) == Seq::<Task>::empty(),
        channel_bound(ends.1) == buffer,
        !channel_closed(ends.1),
{
    tokio::sync::mpsc::channel(buffer)
}

/// A fixed-capacity queue of tasks, first in, first out.
pub struct TaskPool {
    tasks: Receiver<Task>,
    sender: Sender<Task>,
}

impl View for TaskPool {
    type V = Queue;

    closed spec fn view(&self) -> Queue {
        Queue {
            queued: channel_items(self.tasks),
            capacity: channel_bound(self.tasks),
            closed: channel_closed(self.tasks),
        }
    }
}

impl TaskPool {
    /// The queue never holds more than its capacity.
    #[verifier::type_invariant]
    spec fn bounded(&self) -> bool {
        self@.bounded()
    }

    /// `Sender::try_send` on the pool's own channel, which no other handle
    /// feeds: a closed channel hands the task back as `Closed`, a channel
    /// that holds as many tasks as its capacity hands it back as `Full`, and
    /// any other channel takes it at the back of its buffer. Only a task that
    /// was taken changes the channel.
    #[verifier::external_body]
    fn try_send(&mut self, task: Task) -> (sent: TrySend)
        ensures
            sent == (if old(self)@.closed {
                TrySend::Closed(task)
            } else if old(self)@.queued.len() >= old(self)@.capacity {
                TrySend::Full(task)
            } else {
                TrySend::Sent
            }),
            final(self)@ == (if sent is Sent {
                Queue { queued: old(self)@.queued.push(task), ..old(self)@ }
            } else {
                old(self)@
            }),
    {
        match self.sender.try_send(task) {
            Ok(()) => TrySend::Sent,
            Err(TrySendError::Full(task)) => TrySend::Full(task),
            Err(TrySendError::Closed(task)) => TrySend::Closed(task),
        }
    }

    /// `Receiver::try_recv` on the pool's own channel, whose sender lives as
    /// long as the pool: the oldest buffered task leaves the buffer and is
    /// returned; an empty buffer stays empty and answers `Disconnected` if
    /// the channel was closed and `Empty` if not.
    #[verifier::external_body]
    fn try_recv(&mut self) -> (got: TryRecv)
        ensures
            got == (if old(self)@.queued.len() > 0 {
                TryRecv::Task(old(self)@.queued[0])
            } else if old(self)@.closed {
                TryRecv::Disconnected
            } else {
                TryRecv::Empty
            }),
            final(self)@ == (if old(self)@.queued.len() > 0 {
                Queue { queued: old(self)@.queued.drop_first(), ..old(self)@ }
            } else {
                old(self)@
            }),
    {
        match self.tasks.try_recv() {
            Ok(task) => TryRecv::Task(task),
            Err(TryRecvError::Empty) => TryRecv::Empty,
            Err(TryRecvError::Disconnected) => TryRecv::Disconnected,
        }
    }

    /// `Receiver::close`: the channel is closed from then on; what it has
    /// buffered stays, and so does its capacity.
    #[verifier::external_body]
    fn close_channel(&mut self)
        ensures
            final(self)@ == (Queue { closed: true, ..old(self)@ }),
    {
        self.tasks.close()
    }

    /// An open, empty queue with room for `queue_size` tasks.
    pub fn new(queue_size: usize) -> (pool: TaskPool)
        requires
            0 < queue_size <= MAX_QUEUE_SIZE,
        ensures
            pool@ == (Queue { queued: Seq::empty(), capacity: queue_size as nat, closed: false }),
    {
        let (sender, tasks) = channel(queue_size);
        TaskPool { tasks, sender }
    }

    /// Offers `task` to the queue without waiting.
    ///
    /// A queue with room accepts it behind the tasks it holds. A full queue
    /// answers `Pending` and is left as it was: the caller suspends, and
    /// gives up after `CREATE_TIMEOUT_MILLIS`. A closed queue hands the task
    /// back.
    pub fn create(&mut self, task: Task) -> (r: Step<Result<(), SendError>>)
        ensures
            r == old(self)@.create_answer(task),
            final(self)@ == old(self)@.create(task),
            old(self)@.bounded(),
            final(self)@.bounded(),
    {
        proof {
            use_type_invariant(&*self);
        }
        match self.try_send(task) {
            TrySend::Sent => Step::Ready(Ok(())),
            TrySend::Full(_) => Step::Pending,
            TrySend::Closed(task) => Step::Ready(Err(SendError(task))),
        }
    }

    /// Takes the oldest task from the queue without waiting.
    ///
    /// An empty queue answers `Pending` while it is open, and the end of the
    /// stream, `Ready(None)`, once it is closed.
    pub fn pull_task(&mut self) -> (r: Step<Option<Task>>)
        ensures
            r == old(self)@.pull_answer(),
            final(self)@ == old(self)@.pull(),
            old(self)@.bounded(),
            final(self)@.bounded(),
    {
        proof {
            use_type_invariant(&*self);
        }
        match self.try_recv() {
            TryRecv::Task(task) => Step::Ready(Some(task)),
            TryRecv::Empty => Step::Pending,
            TryRecv::Disconnected => Step::Ready(None),
        }
    }

    /// Closes the queue: it accepts nothing more, still delivers what it
    /// holds, and then reports the end of the stream.
    pub fn close(&mut self)
        ensures
            final(self)@ == old(self)@.close(),
            old(self)@.bounded(),
            final(self)@.bounded(),
    {
        proof {
            use_type_invariant(&*self);
        }
        self.close_channel();
    }
}

/// The bound holds at all times: no enqueue, dequeue or close takes a queue
/// over its capacity.
pub proof fn lemma_occupancy_stays_bounded(q: Queue, task: Task)
    requires
        q.bounded(),
    ensures
        q.create(task).bounded(),
        q.pull().bounded(),
        q.close().bounded(),
{
}

/// An open queue with room accepts every task offered, each behind the ones
/// before it.
pub proof fn lemma_accepted_in_order(q: Queue, tasks: Seq<Task>)
    requires
        !q.closed,
        q.queued.len() + tasks.len() <= q.capacity,
    ensures
        q.create_all(tasks) == (Queue { queued: q.queued + tasks, ..q }),
    decreases tasks.len(),
{
    if tasks.len() == 0 {
        assert(q.queued + tasks =~= q.queued);
    } else {
        let next = q.create(tasks[0]);
        lemma_accepted_in_order(next, tasks.drop_first());
        assert(next.queued + tasks.drop_first() =~= q.queued + tasks);
    }
}

/// Dequeues deliver what the queue holds, oldest first, and lose nothing: as
/// many dequeues as there are tasks deliver exactly those tasks in their
/// order and leave the queue empty.
pub proof fn lemma_delivered_in_order(q: Queue)
    ensures
        q.delivered(q.queued.len()) == q.queued,
        q.pull_times(q.queued.len()) == (Queue { queued: Seq::empty(), ..q }),
    decreases q.queued.len(),
{
    if q.queued.len() == 0 {
        assert(q.queued =~= Seq::empty());
    } else {
        lemma_delivered_in_order(q.pull());
        assert(seq![q.queued[0]] + q.queued.drop_first() =~= q.queued);
    }
}

/// First in, first out: the tasks offered to an empty open queue with room
/// for them come out in the order in which they went in.
pub proof fn lemma_first_in_first_out(capacity: nat, tasks: Seq<Task>)
    requires
        tasks.len() <= capacity,
    ensures
        (Queue { queued: Seq::empty(), capacity, closed: false }).create_all(tasks).delivered(
            tasks.len(),
        ) == tasks,
{
    let q = Queue { queued: Seq::empty(), capacity, closed: false };
    lemma_accepted_in_order(q, tasks);
    assert(q.queued + tasks =~= tasks);
    lemma_delivered_in_order(q.create_all(tasks));
}

/// A full queue pushes back: while it is open and holds as many tasks as
/// its capacity, every enqueue is pending and changes nothing, and the first
/// enqueue after a dequeue is accepted.
pub proof fn lemma_backpressure(q: Queue, task: Task)
    requires
        !q.closed,
        q.capacity > 0,
        q.queued.len() == q.capacity,
    ensures
        q.create_answer(task) == Step::<Result<(), SendError>>::Pending,
        q.create(task) == q,
        q.pull().create_answer(task) == Step::Ready(Ok::<(), SendError>(())),
{
}

/// A closed queue ends instead of hanging: it hands every offered task
/// back, still delivers what it holds, and once it is drained every dequeue
/// reports the end of the stream, where an open queue would be pending.
pub proof fn lemma_closed_queue_ends(q: Queue, task: Task)
    ensures
        q.close().create_answer(task) == Step::Ready(Err::<(), SendError>(SendError(task))),
        q.close().create(task) == q.close(),
        q.close().delivered(q.queued.len()) == q.queued,
        q.close().pull_times(q.queued.len()).pull_answer() == Step::Ready(None::<Task>),
        !q.closed ==> q.pull_times(q.queued.len()).pull_answer() == Step::<Option<Task>>::Pending,
{
    lemma_delivered_in_order(q.close());
    lemma_delivered_in_order(q);
}

} // verus!
