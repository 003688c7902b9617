//! Verified building blocks of a small cooperative task system: the answer of
//! one advancement, a race against a deadline, a one-shot delay, the run loop
//! of a single task with its stored wake permit, and a bounded task queue.
//! Beside them stand two rules of the order records: the stages of an order
//! and the format of a customer's e-mail address.
//!
//! Nothing here waits, sleeps or starts a thread. Each piece decides what
//! happens next and says so in its result; the caller does the waiting.

pub mod delay;
pub mod email;
pub mod order;
pub mod run_loop;
pub mod step;
pub mod task_pool;
pub mod timeout;
