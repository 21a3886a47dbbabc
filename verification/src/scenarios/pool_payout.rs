//! Pool payout simulation (outbound flood).
use vstd::prelude::*;

use super::{phase_views, Phase, PhaseView, Scenario, ScenarioView, Work};
use crate::load::patterns::{LoadPattern, Rate};

verus! {

/// What each payout sends: 50 tXTM.
pub const PAYOUT_AMOUNT: u64 = 50_000_000;

/// What a UTXO holds on top of its payouts, for the fee: 5 tXTM.
pub const FEE_HEADROOM: u64 = 5_000_000;

/// The pool mode's recipients per transaction.
pub const POOL_BATCH_SIZE: usize = 50;

/// Pool payout simulation (outbound flood).
///
/// Simulates a mining pool paying out to many recipients rapidly.
/// Budget: 40,000 tXTM.
///
/// In user mode (batch_size=1): 5 TPS × 120s = 600 individual sends + 50 burst.
/// In pool mode (batch_size=50): same recipient count, but batched into fewer txs.
pub struct PoolPayoutScenario {
    batch_size: usize,
}

impl PoolPayoutScenario {
    /// Recipients per transaction.
    pub closed spec fn batch(&self) -> usize {
        self.batch_size
    }

    pub fn new() -> (r: Self)
        ensures
            r.batch() == 1,
    {
        PoolPayoutScenario { batch_size: 1 }
    }

    pub fn with_batch_size(self, batch_size: usize) -> (r: Self)
        ensures
            r.batch() == batch_size,
    {
        PoolPayoutScenario { batch_size }
    }
}

/// The two phases: 5 TPS for 2 min, then 50 as fast as possible.
pub open spec fn payout_phases(batch_size: usize) -> Seq<PhaseView> {
    seq![
        PhaseView {
            label: "pool_payout"@,
            work: Work::Load {
                pattern: LoadPattern::Constant {
                    rate: Rate { txs: 5, per_secs: 1 },
                    duration_secs: 120,
                },
                amount: PAYOUT_AMOUNT,
                batch_size,
            },
        },
        PhaseView {
            label: "pool_payout_burst"@,
            work: Work::Load {
                pattern: LoadPattern::Burst { count: 50 },
                amount: PAYOUT_AMOUNT,
                batch_size,
            },
        },
    ]
}

/// What a UTXO must hold to fund one transaction: its payouts and the fee.
pub open spec fn payout_split(batch_size: usize) -> int {
    if batch_size > 1 {
        batch_size * PAYOUT_AMOUNT + FEE_HEADROOM
    } else {
        PAYOUT_AMOUNT + FEE_HEADROOM
    }
}

impl Scenario for PoolPayoutScenario {
    open spec fn profile(&self) -> ScenarioView {
        ScenarioView {
            name: "pool_payout"@,
            budget: 40_000_000_000,
            required_utxos: if self.batch() > 1 {
                20
            } else {
                700
            },
            split_amount: payout_split(self.batch()),
            phases: payout_phases(self.batch()),
        }
    }

    fn name(&self) -> (r: &'static str) {
        "pool_payout"
    }

    fn budget(&self) -> (r: u64) {
        40_000_000_000
    }

    fn required_utxos(&self) -> (r: u64) {
        if self.batch_size > 1 {
            20
        } else {
            700
        }
    }

    fn split_amount(&self) -> (r: u64) {
        if self.batch_size > 1 {
            self.batch_size as u64 * PAYOUT_AMOUNT + FEE_HEADROOM
        } else {
            PAYOUT_AMOUNT + FEE_HEADROOM
        }
    }

    fn run(&self) -> (r: Vec<Phase>) {
        let mut phases: Vec<Phase> = Vec::new();
        phases.push(
            Phase {
                label: "pool_payout",
                work: Work::Load {
                    pattern: LoadPattern::Constant {
                        rate: Rate { txs: 5, per_secs: 1 },
                        duration_secs: 120,
                    },
                    amount: PAYOUT_AMOUNT,
                    batch_size: self.batch_size,
                },
            },
        );
        phases.push(
            Phase {
                label: "pool_payout_burst",
                work: Work::Load {
                    pattern: LoadPattern::Burst { count: 50 },
                    amount: PAYOUT_AMOUNT,
                    batch_size: self.batch_size,
                },
            },
        );
        assert(phase_views(phases@) =~= payout_phases(self.batch()));
        phases
    }
}

/// A pre-split UTXO covers one full transaction and leaves the fee headroom,
/// whatever the batch size.
pub proof fn law_utxo_covers_a_send(batch_size: usize)
    ensures
        payout_split(batch_size) == crate::load::patterns::send_size(batch_size) * PAYOUT_AMOUNT
            + FEE_HEADROOM,
{
}

/// The payouts are 50 tXTM each, to 600 recipients over two minutes at 5 per
/// second and then to 50 as fast as possible, in sends of the batch size. They
/// stay within the budget of 40,000 tXTM. One by one, each send has an output
/// of its own; in batches of 50 there is an output for each transaction. An
/// output covers the recipients of its transaction and leaves 5 tXTM for the
/// fee.
pub proof fn law_payouts_are_funded(
    batch_size: usize,
    plain: PoolPayoutScenario,
    scenario: PoolPayoutScenario,
    name: &'static str,
    phases: Vec<Phase>,
    budget: u64,
    utxos: u64,
    split: u64,
)
    requires
        call_ensures(PoolPayoutScenario::new, (), plain),
        (batch_size == 1 && scenario == plain) || call_ensures(
            PoolPayoutScenario::with_batch_size,
            (plain, batch_size),
            scenario,
        ),
        call_ensures(PoolPayoutScenario::name, (&scenario,), name),
        call_ensures(PoolPayoutScenario::run, (&scenario,), phases),
        call_ensures(PoolPayoutScenario::budget, (&scenario,), budget),
        call_ensures(PoolPayoutScenario::required_utxos, (&scenario,), utxos),
        call_ensures(PoolPayoutScenario::split_amount, (&scenario,), split),
    ensures
        name@ == "pool_payout"@,
        phases.len() == 2,
        phases@[0].label@ == "pool_payout"@,
        phases@[1].label@ == "pool_payout_burst"@,
        phases@[0].work is Load && phases@[1].work is Load,
        phases@[0].work->Load_amount == 50 * 1_000_000,
        phases@[1].work->Load_amount == 50 * 1_000_000,
        phases@[0].work->batch_size == batch_size,
        phases@[1].work->batch_size == batch_size,
        phases@[0].work->pattern matches LoadPattern::Constant { rate, duration_secs } && {
            &&& rate.txs == 5 * rate.per_secs
            &&& rate.per_secs > 0
            &&& duration_secs == 2 * 60
        },
        phases@[1].work->pattern matches LoadPattern::Burst { count } && count == 50,
        budget == 40_000 * 1_000_000,
        (5 * 120 + 50) * 50_000_000 <= budget,
        batch_size <= 1 ==> utxos == 700 && utxos >= 5 * 120 + 50,
        batch_size > 1 ==> utxos == 20,
        batch_size == 50 ==> utxos >= 5 * 120 / 50 + 1,
        batch_size <= 1 ==> split == 50_000_000 + 5_000_000,
        batch_size > 1 ==> split == batch_size * 50_000_000 + 5_000_000,
{
    assert(phase_views(phases@).len() == phases.len());
    assert(phase_views(phases@)[0] == phases@[0]@);
    assert(phase_views(phases@)[1] == phases@[1]@);
}

} // verus!
