//! The recurring job: "consolidate once the fee estimate drops below a
//! target". Its decisions stand here; the caller performs the waits, the
//! node calls and the consolidation, and reports back what happened.

use crate::parse::{
    blockcount_feerate,
    consolidate_args,
    get_blockcount_feerate,
    parse_consolidate_args,
    ArgError,
    ConsolidateArgs,
    EstimateError,
    Feerates,
    FEE_BLOCKCOUNT,
};
use vstd::prelude::*;

verus! {

/// Why a recurring job could not be started.
#[derive(Clone, Copy, Debug, PartialEq, Eq, Structural)]
pub enum ScheduleError {
    AlreadyRunning,
}

/// The single-flight guard: set while a recurring job runs, so that at most
/// one runs at a time.
#[derive(Debug)]
pub struct RunGuard {
    running: bool,
}

impl RunGuard {
    /// Whether a recurring job holds the guard.
    pub closed spec fn active(&self) -> bool {
        self.running
    }

    pub fn new() -> (r: Self)
        ensures
            !r.active(),
    {
        RunGuard { running: false }
    }

    pub fn is_running(&self) -> (r: bool)
        ensures
            r == self.active(),
    {
        self.running
    }

    /// Takes the guard for a new job. While a job holds it, this fails and
    /// changes nothing.
    pub fn try_start(&mut self) -> (r: Result<(), ScheduleError>)
        ensures
            old(self).active() ==> r == Err::<(), ScheduleError>(ScheduleError::AlreadyRunning)
                && final(self).active(),
            !old(self).active() ==> r is Ok && final(self).active(),
    {
        if self.running {
            return Err(ScheduleError::AlreadyRunning);
        }
        self.running = true;
        Ok(())
    }

    /// Gives the guard back once the job has ended.
    pub fn release(&mut self)
        ensures
            !final(self).active(),
    {
        self.running = false;
    }
}

/// What the job does when it wakes.
#[derive(Clone, Copy, Debug, PartialEq, Eq, Structural)]
pub enum Wake {
    /// Cancelled: the guard is released; the caller deletes the stored job
    /// and ends the loop.
    Stop,
    /// The interval has not elapsed: sleep briefly and wake again.
    Sleep,
    /// Read the node's fee rates and call `evaluate`.
    Evaluate,
}

/// The timing state of a recurring job: its check interval, and when it last
/// read the fee rates, in seconds on a clock that does not go back.
#[derive(Clone, Copy, Debug)]
pub struct PollLoop {
    interval: u64,
    last_eval: u64,
    first_run: bool,
}

impl PollLoop {
    pub closed spec fn interval_secs(&self) -> u64 {
        self.interval
    }

    /// No evaluation has happened yet.
    pub closed spec fn fresh(&self) -> bool {
        self.first_run
    }

    /// When the last evaluation happened.
    pub closed spec fn last_eval_secs(&self) -> u64 {
        self.last_eval
    }

    /// An evaluation is due at `now`: none happened yet, or `interval` seconds
    /// have passed since the last one.
    pub open spec fn due(&self, now: u64) -> bool {
        self.fresh() || (now >= self.last_eval_secs() && now - self.last_eval_secs()
            >= self.interval_secs())
    }

    pub fn new(interval: u64) -> (r: Self)
        ensures
            r.interval_secs() == interval,
            r.fresh(),
    {
        PollLoop { interval, last_eval: 0, first_run: true }
    }

    /// One wake of the loop at `now`. A cancellation is seen first; otherwise
    /// the fee rates are read once the interval has passed since the last read.
    pub fn on_wake(&mut self, guard: &mut RunGuard, cancelled: bool, now: u64) -> (w: Wake)
        ensures
            cancelled ==> w == Wake::Stop && !final(guard).active() && *final(self) == *old(self),
            !cancelled ==> *final(guard) == *old(guard),
            !cancelled && old(self).due(now) ==> {
                &&& w == Wake::Evaluate
                &&& final(self).interval_secs() == old(self).interval_secs()
                &&& final(self).last_eval_secs() == now
                &&& !final(self).fresh()
            },
            !cancelled && !old(self).due(now) ==> w == Wake::Sleep && *final(self) == *old(self),
    {
        if cancelled {
            guard.release();
            return Wake::Stop;
        }
        if !self.first_run && (now < self.last_eval || now - self.last_eval < self.interval) {
            return Wake::Sleep;
        }
        self.last_eval = now;
        self.first_run = false;
        Wake::Evaluate
    }

    /// The outcome of the consolidation that `evaluate` asked for. Success
    /// ends the job and releases the guard; a failure is retried at the next
    /// interval.
    pub fn on_consolidated(&mut self, guard: &mut RunGuard, succeeded: bool) -> (stop: bool)
        ensures
            stop == succeeded,
            succeeded ==> !final(guard).active(),
            !succeeded ==> *final(guard) == *old(guard),
            *final(self) == *old(self),
    {
        if succeeded {
            guard.release();
        }
        succeeded
    }
}

/// What an evaluation of the fee rates decides.
#[derive(Clone, Copy, Debug, PartialEq, Eq, Structural)]
pub enum Decision {
    /// The estimate is not below the target yet.
    Wait { current: u32, wanted: u32 },
    /// The estimate is below the target: consolidate at this estimate (times
    /// the fee multiplier) with this minimum coin count.
    Consolidate { estimate: u32, min_utxos: usize },
}

/// Why an evaluation could not decide; the job retries at the next interval.
#[derive(Clone, Copy, Debug, PartialEq, Eq, Structural)]
pub enum EvalError {
    Args { cause: ArgError },
    Estimate { cause: EstimateError },
}

/// The decision of one evaluation: the job's arguments resolve to a target fee
/// rate and minimum count, and the node's estimate for `FEE_BLOCKCOUNT`
/// blocks is compared with the target.
pub open spec fn decision(args: ConsolidateArgs, f: Feerates) -> Result<Decision, EvalError> {
    match consolidate_args(args, f) {
        Err(cause) => Err(EvalError::Args { cause }),
        Ok((target, count)) => match blockcount_feerate(f, FEE_BLOCKCOUNT) {
            Err(cause) => Err(EvalError::Estimate { cause }),
            Ok(estimate) => if estimate < target {
                Ok(Decision::Consolidate { estimate, min_utxos: count })
            } else {
                Ok(Decision::Wait { current: estimate, wanted: target })
            },
        },
    }
}

/// One evaluation of the recurring job against the node's current fee rates.
pub fn evaluate(args: &ConsolidateArgs, feerates: &Feerates) -> (r: Result<Decision, EvalError>)
    ensures
        r == decision(*args, *feerates),
{
    let (target, count) = match parse_consolidate_args(args, feerates) {
        Ok(p) => p,
        Err(cause) => {
            return Err(EvalError::Args { cause });
        },
    };
    let estimate = match get_blockcount_feerate(feerates, FEE_BLOCKCOUNT) {
        Ok(e) => e,
        Err(cause) => {
            return Err(EvalError::Estimate { cause });
        },
    };
    if estimate < target {
        Ok(Decision::Consolidate { estimate, min_utxos: count })
    } else {
        Ok(Decision::Wait { current: estimate, wanted: target })
    }
}

} // verus!
