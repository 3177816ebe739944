use kline_indicators::{
    next_step, place_positions, rate_defined, timeframes, Extreme, JobEvent,
    JobOutcome, JobStep, JobTally, Placement, StepFacts, WARM_UP,
};

fn facts(non_down: bool, flat_channel: bool, zero_atr: bool) -> StepFacts {
    StepFacts { non_down, flat_channel, zero_atr }
}

#[test]
fn warm_up_indices_are_neutral() {
    let all = vec![facts(true, false, false); 30];
    let plan = place_positions(&all);
    assert_eq!(plan.len(), 30);
    for i in 0..WARM_UP {
        assert_eq!(plan[i], Placement::Neutral);
    }
    for i in WARM_UP..30 {
        assert_eq!(plan[i], Placement::Channel { price: Extreme::High, scaled: true });
    }
}

#[test]
fn directional_extreme_picks_high_or_low() {
    let mut all = vec![facts(true, false, false); 23];
    all[22] = facts(false, false, false);
    let plan = place_positions(&all);
    assert_eq!(plan[21], Placement::Channel { price: Extreme::High, scaled: true });
    assert_eq!(plan[22], Placement::Channel { price: Extreme::Low, scaled: true });
}

#[test]
fn flat_market_is_neutral_everywhere() {
    let mut all = vec![facts(true, false, false); 25];
    for i in 21..25 {
        all[i] = facts(true, true, true);
    }
    let plan = place_positions(&all);
    for p in plan {
        assert_eq!(p, Placement::Neutral);
    }
}

#[test]
fn zero_atr_leaves_channel_positions() {
    let mut all = vec![facts(true, false, false); 22];
    all[21] = facts(false, false, true);
    let plan = place_positions(&all);
    assert_eq!(plan[21], Placement::Channel { price: Extreme::Low, scaled: false });
}

#[test]
fn short_series_is_neutral() {
    let plan = place_positions(&vec![facts(true, false, false); 5]);
    assert_eq!(plan, vec![Placement::Neutral; 5]);
    assert!(place_positions(&vec![]).is_empty());
}

#[test]
fn rate_of_change_guards() {
    let r = rate_defined(&vec![false, false, true, false]);
    assert_eq!(r, vec![false, true, false, true]);
}

#[test]
fn job_steps() {
    assert_eq!(next_step(JobEvent::FetchFailed), JobStep::Finish(JobOutcome::Failed));
    assert_eq!(next_step(JobEvent::Fetched { candles: 20 }), JobStep::Finish(JobOutcome::Skipped));
    assert_eq!(next_step(JobEvent::Fetched { candles: 21 }), JobStep::ComputeAndWrite);
    assert_eq!(next_step(JobEvent::Written), JobStep::Finish(JobOutcome::Written));
    assert_eq!(next_step(JobEvent::WriteFailed), JobStep::Finish(JobOutcome::Failed));
    assert_eq!(next_step(JobEvent::Fetched { candles: 0 }), JobStep::Finish(JobOutcome::Skipped));
}

#[test]
fn tally_counts_outcomes() {
    let mut t = JobTally::new();
    t.record(JobOutcome::Written);
    t.record(JobOutcome::Written);
    t.record(JobOutcome::Skipped);
    t.record(JobOutcome::Failed);
    assert_eq!(t, JobTally { written: 2, skipped: 1, failed: 1 });
}

#[test]
fn two_timeframes() {
    assert_eq!(timeframes(), vec!["2m".to_string(), "30m".to_string()]);
}
