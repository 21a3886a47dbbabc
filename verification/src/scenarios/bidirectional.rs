//! Bidirectional stress (send and receive simultaneously).
use vstd::prelude::*;

use super::{
    phase_views, Phase, PhaseView, Scenario, ScenarioView, Work, DEFAULT_SPLIT_AMOUNT,
};
use crate::load::patterns::{
    asked_often, keeps_pace, law_ramp_reaches_its_maximum, law_ramp_steps_up_in_time, run_after,
    LoadAction, LoadPattern, LoadRun,
};

verus! {

/// Bidirectional stress (send + receive simultaneously).
///
/// Simulates a real-world hot wallet that is both paying out and receiving deposits.
/// Budget: 20,000 tXTM (10k per wallet, recycled).
///
/// ~90 sends over 30 minutes ramp.
pub struct BidirectionalScenario;

/// The one phase: from 1 to 5 transactions per minute, a step every 6 minutes,
/// for 30 minutes.
pub open spec fn ramp_phases() -> Seq<PhaseView> {
    seq![
        PhaseView {
            label: "bidirectional"@,
            work: Work::Load {
                pattern: LoadPattern::Ramp {
                    start_txs: 1,
                    max_txs: 5,
                    step_txs: 1,
                    per_secs: 60,
                    step_interval_secs: 360,
                    duration_secs: 1800,
                },
                amount: 50_000_000,
                batch_size: 1,
            },
        },
    ]
}

impl Scenario for BidirectionalScenario {
    open spec fn profile(&self) -> ScenarioView {
        ScenarioView {
            name: "bidirectional"@,
            budget: 20_000_000_000,
            required_utxos: 100,
            split_amount: DEFAULT_SPLIT_AMOUNT as int,
            phases: ramp_phases(),
        }
    }

    fn name(&self) -> (r: &'static str) {
        "bidirectional"
    }

    fn budget(&self) -> (r: u64) {
        20_000_000_000
    }

    fn required_utxos(&self) -> (r: u64) {
        100
    }

    fn split_amount(&self) -> (r: u64) {
        DEFAULT_SPLIT_AMOUNT
    }

    fn run(&self) -> (r: Vec<Phase>) {
        let mut phases: Vec<Phase> = Vec::new();
        phases.push(
            Phase {
                label: "bidirectional",
                work: Work::Load {
                    pattern: LoadPattern::Ramp {
                        start_txs: 1,
                        max_txs: 5,
                        step_txs: 1,
                        per_secs: 60,
                        step_interval_secs: 360,
                        duration_secs: 1800,
                    },
                    amount: 50_000_000,
                    batch_size: 1,
                },
            },
        );
        assert(phase_views(phases@) =~= ramp_phases());
        phases
    }
}

/// The ramp of the scenario goes from 1 to 5 transactions per minute and is
/// over after 30 minutes. Asked at least once in every 80 seconds, it sends at
/// its maximum before it is over: every ask from 28 minutes on is answered with
/// one send and a pause of 12 seconds.
pub proof fn law_ramp_is_at_its_maximum_in_time(
    scenario: BidirectionalScenario,
    phases: Vec<Phase>,
    times: Seq<u128>,
    run: &mut LoadRun,
    r: LoadAction,
)
    requires
        call_ensures(BidirectionalScenario::run, (&scenario,), phases),
        phases@[0].work is Load,
        asked_often(times, 80_000_000_000),
        times.len() > 0,
        1_680_000_000_000 < times.last() < 1_800_000_000_000,
        *old(run) == run_after(
            LoadRun::begun(phases@[0].work->pattern, phases@[0].work->batch_size),
            times.drop_last(),
        ),
        old(run).wf(),
        call_ensures(LoadRun::next, (run, times.last()), r),
    ensures
        r == (LoadAction::Send { recipients: 1, batched: false, pause_ns: 12_000_000_000 }),
        final(run).current_txs == 5,
{
    assert(phase_views(phases@).len() == phases.len());
    assert(phase_views(phases@)[0] == phases@[0]@);
    let pattern = phases@[0].work->pattern;
    law_ramp_reaches_its_maximum(pattern, 1, times, 80_000_000_000, 4);
    law_ramp_steps_up_in_time(run, times.last(), r);
    let pause = r->pause_ns as int;
    assert(keeps_pace(pause, 1, 5, 60));
}

/// The scenario has one phase, a ramp of single sends of 50 tXTM from 1 to 5
/// transactions per minute in steps of one. The steps take less than the 30
/// minutes that it lasts. Even at its maximum throughout it stays within its
/// budget of 20,000 tXTM, and needs no more than 100 outputs for the some 90
/// sends of an even ramp.
pub proof fn law_ramp_fits_its_time_and_budget(
    scenario: BidirectionalScenario,
    name: &'static str,
    phases: Vec<Phase>,
    budget: u64,
    utxos: u64,
    split: u64,
)
    requires
        call_ensures(BidirectionalScenario::name, (&scenario,), name),
        call_ensures(BidirectionalScenario::run, (&scenario,), phases),
        call_ensures(BidirectionalScenario::budget, (&scenario,), budget),
        call_ensures(BidirectionalScenario::required_utxos, (&scenario,), utxos),
        call_ensures(BidirectionalScenario::split_amount, (&scenario,), split),
    ensures
        name@ == "bidirectional"@,
        phases.len() == 1,
        phases@[0].label@ == "bidirectional"@,
        phases@[0].work matches Work::Load { pattern, amount, batch_size } && {
            &&& amount == 50_000_000
            &&& batch_size == 1
            &&& pattern matches LoadPattern::Ramp {
                start_txs,
                max_txs,
                step_txs,
                per_secs,
                step_interval_secs,
                duration_secs,
            } && {
                &&& per_secs == 60
                &&& start_txs == 1
                &&& max_txs == 5
                &&& duration_secs == 30 * 60
                &&& step_txs == 1
                &&& (max_txs - start_txs + 1) * step_interval_secs == duration_secs
                &&& max_txs * (duration_secs / per_secs) * amount <= budget
            }
        },
        budget == 20_000 * 1_000_000,
        utxos == 100,
        split == 100 * 1_000_000,
{
    assert(phase_views(phases@).len() == phases.len());
    assert(phase_views(phases@)[0] == phases@[0]@);
}

} // verus!
