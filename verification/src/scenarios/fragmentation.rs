//! UTXO fragmentation stress.
use vstd::prelude::*;

use super::{
    phase_views, Phase, PhaseView, Scenario, ScenarioView, Work, DEFAULT_SPLIT_AMOUNT,
};

verus! {

/// UTXO fragmentation stress.
///
/// Tests how wallets handle highly fragmented UTXO sets.
/// Budget: 10,000 tXTM.
pub struct FragmentationScenario;

/// A send to self, recorded under a name.
pub open spec fn self_send(label: Seq<char>, amount: u64) -> PhaseView {
    PhaseView { label, work: Work::SendToSelf { amount } }
}

/// A split into 400 UTXOs of 20 tXTM, to make about 500, then sends to self
/// that need more and more inputs.
pub open spec fn fragmentation_phases() -> Seq<PhaseView> {
    seq![
        PhaseView {
            label: "utxo_split"@,
            work: Work::Split {
                amount_per_utxo: 20_000_000,
                target_count: 400,
                max_per_round: 50,
            },
        },
        self_send("fragmentation_50_tXTM"@, 50_000_000),
        self_send("fragmentation_200_tXTM"@, 200_000_000),
        self_send("fragmentation_1000_tXTM"@, 1_000_000_000),
        self_send("fragmentation_5000_tXTM"@, 5_000_000_000),
    ]
}

impl Scenario for FragmentationScenario {
    open spec fn profile(&self) -> ScenarioView {
        ScenarioView {
            name: "fragmentation"@,
            budget: 10_000_000_000,
            required_utxos: 100,
            split_amount: DEFAULT_SPLIT_AMOUNT as int,
            phases: fragmentation_phases(),
        }
    }

    fn name(&self) -> (r: &'static str) {
        "fragmentation"
    }

    fn budget(&self) -> (r: u64) {
        10_000_000_000
    }

    fn required_utxos(&self) -> (r: u64) {
        100
    }

    fn split_amount(&self) -> (r: u64) {
        DEFAULT_SPLIT_AMOUNT
    }

    fn run(&self) -> (r: Vec<Phase>) {
        let mut phases: Vec<Phase> = Vec::new();
        phases.push(
            Phase {
                label: "utxo_split",
                work: Work::Split {
                    amount_per_utxo: 20_000_000,
                    target_count: 400,
                    max_per_round: 50,
                },
            },
        );
        phases.push(
            Phase {
                label: "fragmentation_50_tXTM",
                work: Work::SendToSelf { amount: 50_000_000 },
            },
        );
        phases.push(
            Phase {
                label: "fragmentation_200_tXTM",
                work: Work::SendToSelf { amount: 200_000_000 },
            },
        );
        phases.push(
            Phase {
                label: "fragmentation_1000_tXTM",
                work: Work::SendToSelf { amount: 1_000_000_000 },
            },
        );
        phases.push(
            Phase {
                label: "fragmentation_5000_tXTM",
                work: Work::SendToSelf { amount: 5_000_000_000 },
            },
        );
        assert(phase_views(phases@) =~= fragmentation_phases());
        phases
    }
}

/// The scenario makes 400 outputs of 20 tXTM on top of the 100 that it asks
/// for, 50 at a time, and then sends 50, 200, 1000 and 5000 tXTM to the wallet
/// itself. Each of these needs more of the outputs than the one before, the
/// outputs hold enough for any of them, and the split stays within the budget
/// of 10,000 tXTM.
pub proof fn law_sends_need_more_and_more_outputs(
    scenario: FragmentationScenario,
    name: &'static str,
    phases: Vec<Phase>,
    budget: u64,
    utxos: u64,
    split: u64,
)
    requires
        call_ensures(FragmentationScenario::name, (&scenario,), name),
        call_ensures(FragmentationScenario::run, (&scenario,), phases),
        call_ensures(FragmentationScenario::budget, (&scenario,), budget),
        call_ensures(FragmentationScenario::required_utxos, (&scenario,), utxos),
        call_ensures(FragmentationScenario::split_amount, (&scenario,), split),
    ensures
        name@ == "fragmentation"@,
        phases.len() == 5,
        phases@[0].label@ == "utxo_split"@,
        phases@[0].work matches Work::Split { amount_per_utxo, target_count, max_per_round } && {
            &&& utxos + target_count == 500
            &&& target_count == 400
            &&& amount_per_utxo == 20 * 1_000_000
            &&& max_per_round == 50
            &&& amount_per_utxo * target_count <= budget
            &&& forall|i: int|
                1 <= i < 5 ==> (#[trigger] phases@[i]).work is SendToSelf
                    && phases@[i].work->SendToSelf_amount > amount_per_utxo
                    && phases@[i].work->SendToSelf_amount <= amount_per_utxo * target_count
        },
        forall|i: int, j: int|
            1 <= i < j < 5 ==> (#[trigger] phases@[i]).work->SendToSelf_amount < (
            #[trigger] phases@[j]).work->SendToSelf_amount,
        phases@[1].label@ == "fragmentation_50_tXTM"@ && phases@[1].work->SendToSelf_amount == 50
            * 1_000_000,
        phases@[2].label@ == "fragmentation_200_tXTM"@ && phases@[2].work->SendToSelf_amount == 200
            * 1_000_000,
        phases@[3].label@ == "fragmentation_1000_tXTM"@ && phases@[3].work->SendToSelf_amount
            == 1000 * 1_000_000,
        phases@[4].label@ == "fragmentation_5000_tXTM"@ && phases@[4].work->SendToSelf_amount
            == 5000 * 1_000_000,
        budget == 10_000 * 1_000_000,
        utxos == 100,
        split == 100 * 1_000_000,
        utxos * split <= budget,
{
    assert(phase_views(phases@).len() == phases.len());
    assert(phase_views(phases@)[0] == phases@[0]@);
    assert(phase_views(phases@)[1] == phases@[1]@);
    assert(phase_views(phases@)[2] == phases@[2]@);
    assert(phase_views(phases@)[3] == phases@[3]@);
    assert(phase_views(phases@)[4] == phases@[4]@);
}

} // verus!
