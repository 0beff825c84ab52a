//! The cooperative scheduler's decisions: the round-robin ready queue, the
//! test-and-set lock, timer deadlines, and the race between a result and a
//! timeout.

mod executor;
mod mutex;
mod or;
mod sleep;

pub use executor::{
    lemma_turns_serve_every_task, queued_tasks, rotate, rotate_n, task_queue_capacity,
    SimpleExecutor, TASK_QUEUE_CAPACITY,
};
pub use mutex::LockState;
pub use or::{race, timed_poll, Progress};
pub use sleep::{
    day_number, days_before_month, days_before_year, days_in_month, is_leap_year,
    lemma_clock_is_monotonic, time_of_day, timestamp, valid_reading, wall_clock_ns, SleepFuture,
};
