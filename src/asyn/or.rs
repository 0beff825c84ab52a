use super::sleep::SleepFuture;
use vstd::prelude::*;

verus! {

/// The state of a computation that is polled: finished with a value, or not yet.
#[derive(Debug, PartialEq, Eq)]
pub enum Progress<T> {
    Ready(T),
    Pending,
}

/// One poll of a race between a main computation and a fallback timer.
/// `main` is the main computation's poll; `second` is the timer's poll, made
/// only while the main one is pending. The race ends with `Some` of the main
/// result as soon as there is one, with `None` once the timer has fired first,
/// and is pending otherwise.
pub fn race<T>(main: Progress<T>, second: Progress<()>) -> (r: Progress<Option<T>>)
    ensures
        main matches Progress::Ready(v) ==> r == Progress::Ready(Some(v)),
        main is Pending && second is Ready ==> r == Progress::<Option<T>>::Ready(None),
        main is Pending && second is Pending ==> r is Pending,
{
    match main {
        Progress::Ready(v) => Progress::Ready(Some(v)),
        Progress::Pending => match second {
            Progress::Ready(()) => Progress::Ready(None),
            Progress::Pending => Progress::Pending,
        },
    }
}

/// One poll of a receive with a timeout: `main` is the poll of the receive,
/// `now` the clock reading of this poll, `timer` the deadline set when the
/// receive began. The timer is consulted only while the receive is pending.
/// The result is the received value as soon as there is one; otherwise
/// `None` at the first poll at or after the deadline, and pending before it.
pub fn timed_poll<T>(main: Progress<T>, timer: &SleepFuture, now: u128) -> (r: Progress<Option<T>>)
    ensures
        main matches Progress::Ready(v) ==> r == Progress::Ready(Some(v)),
        main is Pending && now >= timer.deadline() ==> r == Progress::<Option<T>>::Ready(None),
        main is Pending && now < timer.deadline() ==> r is Pending,
{
    let second = match main {
        Progress::Ready(_) => Progress::Pending,
        Progress::Pending => if timer.is_ready(now) {
            Progress::Ready(())
        } else {
            Progress::Pending
        },
    };
    race(main, second)
}

} // verus!
