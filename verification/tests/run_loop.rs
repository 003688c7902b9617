use std::future::Future;
use std::pin::Pin;
use std::sync::{Arc, Condvar, Mutex};
use std::task::{Context, Poll, Waker};
use std::time::{Duration, Instant};

use task_core::delay::{wait_for, WaitFor, Waited};
use task_core::run_loop::{after_poll, Drive, Permit};
use task_core::step::Step;

fn step_of<T>(poll: Poll<T>) -> Step<T> {
    match poll {
        Poll::Ready(value) => Step::Ready(value),
        Poll::Pending => Step::Pending,
    }
}

/// A wake handle and the wait that goes with it, over one shared permit.
fn make_waker() -> (Waker, impl Fn()) {
    let signal = Arc::new((Mutex::new(Permit::new()), Condvar::new()));
    let waking = signal.clone();
    let waker = waker_fn::waker_fn(move || {
        waking.0.lock().unwrap().wake();
        waking.1.notify_one();
    });
    let wait = move || {
        let mut permit = signal.0.lock().unwrap();
        while !permit.take() {
            permit = signal.1.wait(permit).unwrap();
        }
    };
    (waker, wait)
}

/// Drives `future` to its value; also returns how often it was advanced.
fn block_on<F: Future>(future: F) -> (F::Output, usize) {
    let (waker, wait) = make_waker();
    let mut context = Context::from_waker(&waker);
    let mut future = Box::pin(future);
    let mut polls = 0;
    loop {
        polls += 1;
        match after_poll(step_of(future.as_mut().poll(&mut context))) {
            Drive::Finish(value) => return (value, polls),
            Drive::Wait => wait(),
        }
    }
}

/// Pending `left` times, waking itself each time, then ready.
struct Countdown {
    left: usize,
}

impl Future for Countdown {
    type Output = &'static str;

    fn poll(mut self: Pin<&mut Self>, cx: &mut Context<'_>) -> Poll<Self::Output> {
        if self.left == 0 {
            return Poll::Ready("done");
        }
        self.left -= 1;
        cx.waker().wake_by_ref();
        Poll::Pending
    }
}

/// A delay whose worker runs on a thread of `workers`.
struct WorkerDelay {
    inner: WaitFor,
    workers: tokio::runtime::Handle,
}

impl Future for WorkerDelay {
    type Output = ();

    fn poll(mut self: Pin<&mut Self>, cx: &mut Context<'_>) -> Poll<()> {
        match self.inner.poll() {
            Waited::Ready => Poll::Ready(()),
            Waited::PendingSpawn(duration) => {
                let waker = cx.waker().clone();
                self.workers.spawn(async move {
                    tokio::time::sleep(duration).await;
                    waker.wake();
                });
                Poll::Pending
            }
        }
    }
}

/// A runtime whose one thread stands for the workers that wake the loop.
fn workers() -> tokio::runtime::Runtime {
    tokio::runtime::Builder::new_multi_thread().worker_threads(1).enable_time().build().unwrap()
}

#[test]
fn a_new_permit_holds_no_wake() {
    let mut permit = Permit::new();
    assert!(!permit.take());
}

#[test]
fn a_wake_is_kept_until_it_is_taken() {
    let mut permit = Permit::new();
    permit.wake();
    assert!(permit.take());
    assert!(!permit.take());
}

#[test]
fn wakes_coalesce_into_one() {
    let mut permit = Permit::new();
    permit.wake();
    permit.wake();
    permit.wake();
    assert!(permit.take());
    assert!(!permit.take());
}

#[test]
fn a_value_stops_the_loop() {
    assert_eq!(after_poll(Step::Ready(3)), Drive::Finish(3));
}

#[test]
fn a_pending_answer_sends_the_loop_to_wait() {
    assert_eq!(after_poll(Step::<u8>::Pending), Drive::Wait);
}

#[test]
fn a_wake_before_the_wait_is_not_lost() {
    let (waker, wait) = make_waker();
    waker.wake_by_ref();
    let start = Instant::now();
    wait();
    assert!(start.elapsed() < Duration::from_secs(5));
}

#[test]
fn a_wake_from_a_clone_on_another_thread_ends_the_wait() {
    let workers = workers();
    let (waker, wait) = make_waker();
    let remote = waker.clone();
    let start = Instant::now();
    workers.spawn(async move {
        tokio::time::sleep(Duration::from_millis(30)).await;
        remote.wake();
    });
    wait();
    assert!(start.elapsed() >= Duration::from_millis(30));
}

#[test]
fn an_immediate_value_takes_one_advancement() {
    assert_eq!(block_on(async { 42 }), (42, 1));
}

#[test]
fn ready_after_n_cycles_takes_n_plus_one_advancements() {
    for n in [0, 1, 2, 5, 17] {
        assert_eq!(block_on(Countdown { left: n }), ("done", n + 1));
    }
}

#[test]
fn the_loop_drives_a_delay_that_a_worker_ends() {
    let workers = workers();
    let delay =
        WorkerDelay { inner: wait_for(Duration::from_millis(50)), workers: workers.handle().clone() };
    let start = Instant::now();
    let ((), polls) = block_on(delay);
    assert!(start.elapsed() >= Duration::from_millis(50));
    assert_eq!(polls, 2);
}
