use vstd::prelude::*;
use crate::positions::WARM_UP;

verus! {

/// How one (symbol, interval) job ended.
#[derive(Clone, Copy, Debug, PartialEq, Eq, Structural)]
pub enum JobOutcome {
    /// The candles and indicators were written.
    Written,
    /// Too few candles were fetched to compute the indicators.
    Skipped,
    /// Reaching the store failed.
    Failed,
}

/// What the job's last piece of outside work reported.
#[derive(Clone, Copy, Debug, PartialEq, Eq, Structural)]
pub enum JobEvent {
    FetchFailed,
    Fetched { candles: usize },
    Written,
    WriteFailed,
}

/// What the job does next.
#[derive(Clone, Copy, Debug, PartialEq, Eq, Structural)]
pub enum JobStep {
    /// Compute the indicators over the fetched candles and write them.
    ComputeAndWrite,
    /// The job is over.
    Finish(JobOutcome),
}

pub open spec fn step_after(e: JobEvent) -> JobStep {
    match e {
        JobEvent::FetchFailed => JobStep::Finish(JobOutcome::Failed),
        JobEvent::Fetched { candles } => if candles >= WARM_UP {
            JobStep::ComputeAndWrite
        } else {
            JobStep::Finish(JobOutcome::Skipped)
        },
        JobEvent::Written => JobStep::Finish(JobOutcome::Written),
        JobEvent::WriteFailed => JobStep::Finish(JobOutcome::Failed),
    }
}

/// The next step of a (symbol, interval) job after `e`: a store failure ends
/// it as failed, fewer than the warm-up number of candles ends it as skipped,
/// enough candles lead to the computation and the write.
pub fn next_step(e: JobEvent) -> (r: JobStep)
    ensures
        r == step_after(e),
{
    match e {
        JobEvent::FetchFailed => JobStep::Finish(JobOutcome::Failed),
        JobEvent::Fetched { candles } => if candles >= WARM_UP {
            JobStep::ComputeAndWrite
        } else {
            JobStep::Finish(JobOutcome::Skipped)
        },
        JobEvent::Written => JobStep::Finish(JobOutcome::Written),
        JobEvent::WriteFailed => JobStep::Finish(JobOutcome::Failed),
    }
}

/// Counts of finished jobs by outcome.
#[derive(Clone, Copy, Debug, PartialEq, Eq, Structural)]
pub struct JobTally {
    pub written: u64,
    pub skipped: u64,
    pub failed: u64,
}

impl JobTally {
    pub open spec fn total(&self) -> int {
        self.written + self.skipped + self.failed
    }

    pub fn new() -> (r: JobTally)
        ensures
            r.written == 0 && r.skipped == 0 && r.failed == 0,
    {
        JobTally { written: 0, skipped: 0, failed: 0 }
    }

    /// Counts one more job that ended with `o`.
    pub fn record(&mut self, o: JobOutcome)
        requires
            old(self).total() < u64::MAX,
        ensures
            final(self).written == old(self).written + (if o == JobOutcome::Written { 1int } else { 0 }),
            final(self).skipped == old(self).skipped + (if o == JobOutcome::Skipped { 1int } else { 0 }),
            final(self).failed == old(self).failed + (if o == JobOutcome::Failed { 1int } else { 0 }),
            final(self).total() == old(self).total() + 1,
    {
        match o {
            JobOutcome::Written => self.written = self.written + 1,
            JobOutcome::Skipped => self.skipped = self.skipped + 1,
            JobOutcome::Failed => self.failed = self.failed + 1,
        }
    }
}

/// The interval labels processed for every symbol: two-minute and
/// thirty-minute candles.
pub fn timeframes() -> (r: Vec<String>)
    ensures
        r.len() == 2,
        r@[0]@ == seq!['2', 'm'],
        r@[1]@ == seq!['3', '0', 'm'],
{
    proof {
        reveal_strlit("2m");
        reveal_strlit("30m");
    }
    let mut r: Vec<String> = Vec::new();
    r.push(String::from_str("2m"));
    r.push(String::from_str("30m"));
    assert(r@[0]@ =~= seq!['2', 'm']);
    assert(r@[1]@ =~= seq!['3', '0', 'm']);
    r
}

} // verus!
