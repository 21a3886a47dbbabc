//! Lock contention under rapid sequential sends.
use vstd::prelude::*;

use super::{
    phase_views, Phase, PhaseView, Scenario, ScenarioView, Work, DEFAULT_SPLIT_AMOUNT,
};

verus! {

/// What each send of this scenario sends: 50 tXTM.
pub const SEND_AMOUNT: u64 = 50_000_000;

/// Seconds between two rounds.
pub const COOLDOWN_SECS: u64 = 10;

/// Concurrent lock contention.
///
/// Tests UTXO locking under rapid sequential API access.
/// Budget: 10,000 tXTM.
///
/// For the new wallet, this measures SQLite contention and UTXO selection
/// under rapid sequential sends (the DB-level locking is the bottleneck).
///
/// For the old wallet, this tests the internal output manager service
/// contention under rapid sequential Transfer calls.
pub struct LockContentionScenario;

/// A round of rapid sends.
pub open spec fn rapid_sends(label: Seq<char>, count: u64) -> PhaseView {
    PhaseView {
        label,
        work: Work::SendToPool { count, amount: SEND_AMOUNT, cooldown_secs: COOLDOWN_SECS },
    }
}

/// Rounds of 10, 25 and 50 sends.
pub open spec fn contention_phases() -> Seq<PhaseView> {
    seq![
        rapid_sends("lock_contention_10"@, 10),
        rapid_sends("lock_contention_25"@, 25),
        rapid_sends("lock_contention_50"@, 50),
    ]
}

impl Scenario for LockContentionScenario {
    open spec fn profile(&self) -> ScenarioView {
        ScenarioView {
            name: "lock_contention"@,
            budget: 10_000_000_000,
            required_utxos: 100,
            split_amount: DEFAULT_SPLIT_AMOUNT as int,
            phases: contention_phases(),
        }
    }

    fn name(&self) -> (r: &'static str) {
        "lock_contention"
    }

    fn budget(&self) -> (r: u64) {
        10_000_000_000
    }

    fn required_utxos(&self) -> (r: u64) {
        100
    }

    fn split_amount(&self) -> (r: u64) {
        DEFAULT_SPLIT_AMOUNT
    }

    fn run(&self) -> (r: Vec<Phase>) {
        let mut phases: Vec<Phase> = Vec::new();
        phases.push(
            Phase {
                label: "lock_contention_10",
                work: Work::SendToPool {
                    count: 10,
                    amount: SEND_AMOUNT,
                    cooldown_secs: COOLDOWN_SECS,
                },
            },
        );
        phases.push(
            Phase {
                label: "lock_contention_25",
                work: Work::SendToPool {
                    count: 25,
                    amount: SEND_AMOUNT,
                    cooldown_secs: COOLDOWN_SECS,
                },
            },
        );
        phases.push(
            Phase {
                label: "lock_contention_50",
                work: Work::SendToPool {
                    count: 50,
                    amount: SEND_AMOUNT,
                    cooldown_secs: COOLDOWN_SECS,
                },
            },
        );
        assert(phase_views(phases@) =~= contention_phases());
        phases
    }
}

/// The rounds have 10, 25 and 50 sends of 50 tXTM, with 10 seconds after each.
/// The scenario asks for an output for every send of all its rounds, each
/// holding more than a send, and what is sent stays within the budget of 10,000
/// tXTM.
pub proof fn law_every_rapid_send_has_an_output(
    scenario: LockContentionScenario,
    name: &'static str,
    phases: Vec<Phase>,
    budget: u64,
    utxos: u64,
    split: u64,
)
    requires
        call_ensures(LockContentionScenario::name, (&scenario,), name),
        call_ensures(LockContentionScenario::run, (&scenario,), phases),
        call_ensures(LockContentionScenario::budget, (&scenario,), budget),
        call_ensures(LockContentionScenario::required_utxos, (&scenario,), utxos),
        call_ensures(LockContentionScenario::split_amount, (&scenario,), split),
    ensures
        name@ == "lock_contention"@,
        phases.len() == 3,
        forall|i: int|
            0 <= i < 3 ==> (#[trigger] phases@[i]).work is SendToPool
                && phases@[i].work->SendToPool_amount == 50 * 1_000_000
                && phases@[i].work->cooldown_secs == 10 && phases@[i].work->SendToPool_amount
                < split,
        phases@[0].label@ == "lock_contention_10"@ && phases@[0].work->SendToPool_count == 10,
        phases@[1].label@ == "lock_contention_25"@ && phases@[1].work->SendToPool_count == 25,
        phases@[2].label@ == "lock_contention_50"@ && phases@[2].work->SendToPool_count == 50,
        phases@[0].work->SendToPool_count + phases@[1].work->SendToPool_count
            + phases@[2].work->SendToPool_count <= utxos,
        budget == 10_000 * 1_000_000,
        (10 + 25 + 50) * 50_000_000 <= budget,
        utxos == 100,
        split == 100 * 1_000_000,
{
    assert(phase_views(phases@).len() == phases.len());
    assert(phase_views(phases@)[0] == phases@[0]@);
    assert(phase_views(phases@)[1] == phases@[1]@);
    assert(phase_views(phases@)[2] == phases@[2]@);
}

} // verus!
