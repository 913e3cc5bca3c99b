use consolidator::parse::{
    ArgError, ArgValue, ConsolidateArgs, EstimateError, FeeEstimate, Feerates,
};
use consolidator::schedule::{
    evaluate, Decision, EvalError, PollLoop, RunGuard, ScheduleError, Wake,
};

fn feerates(six_block: u32) -> Feerates {
    Feerates {
        min_acceptable: 1,
        max_acceptable: 1000,
        estimates: Some(vec![FeeEstimate { blockcount: 6, feerate: six_block }]),
    }
}

#[test]
fn second_start_fails_while_running() {
    let mut guard = RunGuard::new();
    assert!(!guard.is_running());
    assert_eq!(guard.try_start(), Ok(()));
    assert_eq!(guard.try_start(), Err(ScheduleError::AlreadyRunning));
    assert!(guard.is_running());
    guard.release();
    assert_eq!(guard.try_start(), Ok(()));
}

#[test]
fn estimate_below_target_consolidates() {
    let args = ConsolidateArgs::Named { feerate: Some(ArgValue::Number(10)), min_utxos: None };
    assert_eq!(
        evaluate(&args, &feerates(8)),
        Ok(Decision::Consolidate { estimate: 8, min_utxos: 10 })
    );
}

#[test]
fn estimate_not_below_target_waits() {
    let args = ConsolidateArgs::Positional(vec![ArgValue::Number(10), ArgValue::Number(2)]);
    assert_eq!(evaluate(&args, &feerates(10)), Ok(Decision::Wait { current: 10, wanted: 10 }));
}

#[test]
fn evaluation_errors_are_reported() {
    let args = ConsolidateArgs::Positional(vec![ArgValue::Number(2000)]);
    assert_eq!(
        evaluate(&args, &feerates(8)),
        Err(EvalError::Args {
            cause: ArgError::AboveMaxAcceptable { feerate: 2000, max_acceptable: 1000 }
        })
    );
    let args = ConsolidateArgs::Positional(vec![ArgValue::Number(10)]);
    let none = Feerates { min_acceptable: 1, max_acceptable: 1000, estimates: Some(Vec::new()) };
    assert_eq!(
        evaluate(&args, &none),
        Err(EvalError::Estimate { cause: EstimateError::NoBlockcount { blockcount: 6 } })
    );
}

#[test]
fn wakes_follow_the_interval() {
    let mut guard = RunGuard::new();
    guard.try_start().unwrap();
    let mut poll = PollLoop::new(5);
    assert_eq!(poll.on_wake(&mut guard, false, 100), Wake::Evaluate);
    assert_eq!(poll.on_wake(&mut guard, false, 101), Wake::Sleep);
    assert_eq!(poll.on_wake(&mut guard, false, 104), Wake::Sleep);
    assert_eq!(poll.on_wake(&mut guard, false, 105), Wake::Evaluate);
    assert_eq!(poll.on_wake(&mut guard, false, 109), Wake::Sleep);
    assert!(guard.is_running());
}

#[test]
fn cancel_mid_wait_stops_and_releases() {
    let mut guard = RunGuard::new();
    guard.try_start().unwrap();
    let mut poll = PollLoop::new(3600);
    assert_eq!(poll.on_wake(&mut guard, false, 0), Wake::Evaluate);
    assert_eq!(poll.on_wake(&mut guard, false, 10), Wake::Sleep);
    assert_eq!(poll.on_wake(&mut guard, true, 11), Wake::Stop);
    assert!(!guard.is_running());
}

#[test]
fn consolidation_outcome_ends_or_continues() {
    let mut guard = RunGuard::new();
    guard.try_start().unwrap();
    let mut poll = PollLoop::new(5);
    assert!(!poll.on_consolidated(&mut guard, false));
    assert!(guard.is_running());
    assert!(poll.on_consolidated(&mut guard, true));
    assert!(!guard.is_running());
}
