use std::future::poll_fn;
use std::task::Poll;
use std::time::Duration;

use tokio::time::{timeout, Instant};

use task_core::step::Step;
use task_core::task_pool::{SendError, Task, TaskPool, CREATE_TIMEOUT_MILLIS, MAX_QUEUE_SIZE};

fn poll_of<T>(step: Step<T>) -> Poll<T> {
    match step {
        Step::Ready(value) => Poll::Ready(value),
        Step::Pending => Poll::Pending,
    }
}

/// An enqueue that waits for room no longer than the pool's timeout.
async fn create(tasks: &mut TaskPool, task: Task) -> Option<Result<(), SendError>> {
    let sender = poll_fn(|_| poll_of(tasks.create(task)));
    timeout(Duration::from_millis(CREATE_TIMEOUT_MILLIS), sender).await.ok()
}

/// A dequeue that suspends while the pool is empty and open.
async fn pull_task(tasks: &mut TaskPool) -> Option<Task> {
    poll_fn(|_| poll_of(tasks.pull_task())).await
}

/// A runtime whose clock stands still while work is done and jumps to the
/// next timer when there is none.
fn runtime() -> tokio::runtime::Runtime {
    tokio::runtime::Builder::new_current_thread().enable_time().start_paused(true).build().unwrap()
}

#[test]
fn the_timeout_is_a_tenth_of_a_second() {
    assert_eq!(CREATE_TIMEOUT_MILLIS, 100);
}

#[test]
fn the_largest_capacity_is_an_eighth_of_the_address_space() {
    assert_eq!(MAX_QUEUE_SIZE, usize::MAX >> 3);
    assert_eq!(MAX_QUEUE_SIZE, tokio::sync::Semaphore::MAX_PERMITS);
}

#[test]
fn a_new_pool_is_empty_and_open() {
    let mut tasks = TaskPool::new(1);
    assert_eq!(tasks.pull_task(), Step::Pending);
}

#[test]
fn a_pool_with_room_accepts() {
    let mut tasks = TaskPool::new(2);
    assert_eq!(tasks.create(1), Step::Ready(Ok(())));
    assert_eq!(tasks.create(2), Step::Ready(Ok(())));
}

#[test]
fn a_full_pool_is_pending_and_keeps_what_it_holds() {
    let mut tasks = TaskPool::new(2);
    assert_eq!(tasks.create(1), Step::Ready(Ok(())));
    assert_eq!(tasks.create(2), Step::Ready(Ok(())));
    assert_eq!(tasks.create(3), Step::Pending);
    assert_eq!(tasks.create(4), Step::Pending);
    assert_eq!(tasks.pull_task(), Step::Ready(Some(1)));
    assert_eq!(tasks.pull_task(), Step::Ready(Some(2)));
    assert_eq!(tasks.pull_task(), Step::Pending);
}

#[test]
fn tasks_come_out_in_the_order_they_went_in() {
    let mut tasks = TaskPool::new(5);
    for task in [30, 10, 20, 10, 50] {
        assert_eq!(tasks.create(task), Step::Ready(Ok(())));
    }
    for task in [30, 10, 20, 10, 50] {
        assert_eq!(tasks.pull_task(), Step::Ready(Some(task)));
    }
    assert_eq!(tasks.pull_task(), Step::Pending);
}

#[test]
fn a_dequeue_makes_room_for_one_more() {
    let mut tasks = TaskPool::new(1);
    assert_eq!(tasks.create(1), Step::Ready(Ok(())));
    assert_eq!(tasks.create(2), Step::Pending);
    assert_eq!(tasks.pull_task(), Step::Ready(Some(1)));
    assert_eq!(tasks.create(2), Step::Ready(Ok(())));
    assert_eq!(tasks.create(3), Step::Pending);
    assert_eq!(tasks.pull_task(), Step::Ready(Some(2)));
}

#[test]
fn a_closed_pool_hands_the_task_back() {
    let mut tasks = TaskPool::new(2);
    tasks.close();
    assert_eq!(tasks.create(9), Step::Ready(Err(SendError(9))));
}

#[test]
fn a_closed_full_pool_hands_the_task_back() {
    let mut tasks = TaskPool::new(1);
    assert_eq!(tasks.create(1), Step::Ready(Ok(())));
    tasks.close();
    assert_eq!(tasks.create(2), Step::Ready(Err(SendError(2))));
}

#[test]
fn a_closed_pool_drains_and_then_ends() {
    let mut tasks = TaskPool::new(3);
    assert_eq!(tasks.create(1), Step::Ready(Ok(())));
    assert_eq!(tasks.create(2), Step::Ready(Ok(())));
    tasks.close();
    assert_eq!(tasks.pull_task(), Step::Ready(Some(1)));
    assert_eq!(tasks.pull_task(), Step::Ready(Some(2)));
    assert_eq!(tasks.pull_task(), Step::Ready(None));
    assert_eq!(tasks.pull_task(), Step::Ready(None));
}

#[test]
fn a_closed_empty_pool_ends_at_once() {
    let mut tasks = TaskPool::new(2);
    tasks.close();
    tasks.close();
    assert_eq!(tasks.pull_task(), Step::Ready(None));
}

#[test]
fn a_full_pool_of_two_times_out_after_its_timeout() {
    let runtime = runtime();
    runtime.block_on(async {
        let mut tasks = TaskPool::new(2);

        assert_eq!(create(&mut tasks, 1).await, Some(Ok(())));
        assert_eq!(create(&mut tasks, 2).await, Some(Ok(())));

        let start = Instant::now();
        assert_eq!(create(&mut tasks, 3).await, None);
        let end = start.elapsed();

        assert!(end > Duration::from_millis(90));
        assert!(end < Duration::from_millis(110));

        assert_eq!(pull_task(&mut tasks).await, Some(1));
        let start = Instant::now();
        assert_eq!(create(&mut tasks, 3).await, Some(Ok(())));
        assert!(start.elapsed() < Duration::from_millis(10));
    });
}

#[test]
fn a_dequeue_on_an_empty_open_pool_stays_suspended() {
    let runtime = runtime();
    runtime.block_on(async {
        let mut tasks = TaskPool::new(2);
        let waited = timeout(Duration::from_secs(3600), pull_task(&mut tasks)).await;
        assert!(waited.is_err());
    });
}

#[test]
fn a_dequeue_on_a_closed_empty_pool_ends_the_stream() {
    let runtime = runtime();
    runtime.block_on(async {
        let mut tasks = TaskPool::new(2);
        assert_eq!(create(&mut tasks, 8).await, Some(Ok(())));
        tasks.close();
        assert_eq!(pull_task(&mut tasks).await, Some(8));
        let start = Instant::now();
        assert_eq!(pull_task(&mut tasks).await, None);
        assert!(start.elapsed() < Duration::from_millis(10));
    });
}

#[test]
fn a_timed_enqueue_on_a_closed_pool_fails_at_once() {
    let runtime = runtime();
    runtime.block_on(async {
        let mut tasks = TaskPool::new(1);
        tasks.close();
        let start = Instant::now();
        assert_eq!(create(&mut tasks, 5).await, Some(Err(SendError(5))));
        assert!(start.elapsed() < Duration::from_millis(10));
    });
}
