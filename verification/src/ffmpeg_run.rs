//! The loop that keeps an FFmpeg process running: what it decides on each
//! event, while `app/` spawns the process, waits and sleeps.

use vstd::prelude::*;

use crate::state::Status;

verus! {

/// Status of the kill switch of an FFmpeg process.
#[derive(Clone, Copy, Debug, PartialEq, Eq, Structural)]
pub enum FFmpegStatus {
    /// The process is to keep running.
    Running,
    /// The process was aborted.
    Aborted,
}

/// What happens to the loop.
#[derive(Clone, Copy, Debug, PartialEq, Eq, Structural)]
pub enum RunEvent {
    /// An attempt to run the process begins, at `now` (in seconds).
    Attempt {
        /// Time of the attempt, in seconds.
        now: i64,
    },
    /// The process has run for ten seconds without failing.
    RunningLong,
    /// The attempt failed, at `now` (in seconds).
    Failed {
        /// Time of the failure, in seconds.
        now: i64,
    },
    /// The attempt ended; the kill switch reads `status`.
    Ended {
        /// Status of the kill switch.
        status: FFmpegStatus,
    },
    /// The loop stopped for good.
    Stopped,
}

/// What the loop does next.
#[derive(Clone, Copy, Debug, PartialEq, Eq, Structural)]
pub enum RunAction {
    /// Record this status for the element the process serves.
    RenewStatus(Status),
    /// Sleep two seconds, then try again.
    Retry,
    /// Leave the loop.
    Stop,
}

/// Status recorded when the process turns to `new_status` at `now`, given
/// the time of its last failure: a process that failed less than fifteen
/// seconds before is unstable.
pub open spec fn status_at(time_of_fail: Option<i64>, now: i64, new_status: Status) -> Status {
    match time_of_fail {
        Some(t) => if now - t < 15 {
            Status::Unstable
        } else {
            new_status
        },
        None => new_status,
    }
}

/// Decisions of the loop that keeps one FFmpeg process running.
#[derive(Debug)]
pub struct RestreamerRun {
    /// Time of the last failure, in seconds, if the process failed.
    pub time_of_fail: Option<i64>,
}

/// What the loop in state `time_of_fail` does on `e`, and its next state.
pub open spec fn run_step(time_of_fail: Option<i64>, e: RunEvent) -> (RunAction, Option<i64>) {
    match e {
        RunEvent::Attempt { now } => (
            RunAction::RenewStatus(status_at(time_of_fail, now, Status::Initializing)),
            time_of_fail,
        ),
        RunEvent::RunningLong => (RunAction::RenewStatus(Status::Online), time_of_fail),
        RunEvent::Failed { now } => (RunAction::RenewStatus(status_at(time_of_fail, now, Status::Offline)), Some(now)),
        RunEvent::Ended { status } => (
            if status == FFmpegStatus::Running {
                RunAction::Retry
            } else {
                RunAction::Stop
            },
            time_of_fail,
        ),
        RunEvent::Stopped => (RunAction::RenewStatus(Status::Offline), time_of_fail),
    }
}

/// Status recorded when the process turns to `new_status` at `now` (see
/// [`status_at`]).
fn status_now(time_of_fail: Option<i64>, now: i64, new_status: Status) -> (s: Status)
    ensures
        s == status_at(time_of_fail, now, new_status),
{
    match time_of_fail {
        Some(t) => if (now as i128) - (t as i128) < 15 {
            Status::Unstable
        } else {
            new_status
        },
        None => new_status,
    }
}

impl RestreamerRun {
    /// A loop whose process never failed.
    pub fn new() -> (r: RestreamerRun)
        ensures
            r.time_of_fail is None,
    {
        RestreamerRun { time_of_fail: None }
    }

    /// Decides what to do on `e` (see [`run_step`]).
    pub fn step(&mut self, e: RunEvent) -> (a: RunAction)
        ensures
            (a, final(self).time_of_fail) == run_step(old(self).time_of_fail, e),
    {
        match e {
            RunEvent::Attempt { now } => RunAction::RenewStatus(
                status_now(self.time_of_fail, now, Status::Initializing),
            ),
            RunEvent::RunningLong => RunAction::RenewStatus(Status::Online),
            RunEvent::Failed { now } => {
                let s = status_now(self.time_of_fail, now, Status::Offline);
                self.time_of_fail = Some(now);
                RunAction::RenewStatus(s)
            },
            RunEvent::Ended { status } => if status == FFmpegStatus::Running {
                RunAction::Retry
            } else {
                RunAction::Stop
            },
            RunEvent::Stopped => RunAction::RenewStatus(Status::Offline),
        }
    }
}

/// A process that failed is unstable for fifteen seconds: an attempt that
/// begins less than fifteen seconds after a failure records `Unstable`, and
/// one that begins later records `Initializing`.
pub proof fn lemma_unstable_after_failure(time_of_fail: Option<i64>, failed_at: i64, now: i64)
    ensures
        ({
            let after = run_step(time_of_fail, RunEvent::Failed { now: failed_at }).1;
            &&& now - failed_at < 15 ==> run_step(after, RunEvent::Attempt { now }).0 == RunAction::RenewStatus(
                Status::Unstable,
            )
            &&& now - failed_at >= 15 ==> run_step(after, RunEvent::Attempt { now }).0 == RunAction::RenewStatus(
                Status::Initializing,
            )
        }),
{
}

} // verus!
