//! Deadlines of bulk transfers.

use std::time::{Duration, Instant};

use vstd::prelude::*;

use crate::platform::{instant_plus, time_between};

verus! {

/// When to give up waiting for a transfer.
#[derive(Clone, Copy)]
pub enum TransferDeadline {
    /// At this instant.
    At(Instant),
    /// Not at all: the instant lies beyond the end of the clock.
    Never,
}

/// How long a transfer may still be waited for.
#[derive(Clone, Copy)]
pub enum Wait {
    /// As long as it takes.
    Forever,
    /// At most this long.
    AtMost(Duration),
    /// No longer: the deadline has passed.
    Expired,
}

/// The deadline of a wait of `timeout` that starts at `start`.
pub open spec fn deadline_after(start: Instant, timeout: Duration) -> TransferDeadline {
    match instant_plus(start, timeout) {
        Some(end) => TransferDeadline::At(end),
        None => TransferDeadline::Never,
    }
}

/// Whether `deadline` is that of a wait of `timeout` from some instant on.
pub open spec fn is_deadline_of(deadline: TransferDeadline, timeout: Duration) -> bool {
    exists|start: Instant| deadline == #[trigger] deadline_after(start, timeout)
}

impl TransferDeadline {
    /// What is left, at `now`, of a wait with this deadline.
    pub open spec fn wait_from(self, now: Instant) -> Wait {
        match self {
            TransferDeadline::Never => Wait::Forever,
            TransferDeadline::At(end) => match time_between(end, now) {
                Some(left) => Wait::AtMost(left),
                None => Wait::Expired,
            },
        }
    }

    /// The deadline of a wait of `timeout` that starts now.
    ///
    /// This reads the system's monotonic clock, which a browser target lacks.
    /// There, where transfers cannot be cancelled either, use
    /// [`TransferDeadline::Never`].
    pub fn new(timeout: Duration) -> (deadline: TransferDeadline)
        ensures
            is_deadline_of(deadline, timeout),
    {
        TransferDeadline::starting_at(Instant::now(), timeout)
    }

    /// The deadline of a wait of `timeout` that starts at `start`.
    pub fn starting_at(start: Instant, timeout: Duration) -> (deadline: TransferDeadline)
        ensures
            deadline == deadline_after(start, timeout),
    {
        match start.checked_add(timeout) {
            Some(end) => TransferDeadline::At(end),
            None => TransferDeadline::Never,
        }
    }

    /// How long a transfer with this deadline may still be waited for.
    ///
    /// This reads the system's monotonic clock, which a browser target lacks,
    /// unless the deadline is [`TransferDeadline::Never`].
    pub fn wait(self) -> (wait: Wait)
        ensures
            exists|now: Instant| wait == #[trigger] self.wait_from(now),
    {
        match self {
            TransferDeadline::Never => {
                assert(self.wait_from(arbitrary()) == Wait::Forever);
                Wait::Forever
            },
            TransferDeadline::At(_) => self.wait_at(Instant::now()),
        }
    }

    /// How long, at `now`, a transfer with this deadline may still be waited for.
    pub fn wait_at(self, now: Instant) -> (wait: Wait)
        ensures
            wait == self.wait_from(now),
    {
        match self {
            TransferDeadline::Never => Wait::Forever,
            TransferDeadline::At(end) => match end.checked_duration_since(now) {
                Some(left) => Wait::AtMost(left),
                None => Wait::Expired,
            },
        }
    }
}

} // verus!
