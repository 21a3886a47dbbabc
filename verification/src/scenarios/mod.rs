//! Test scenarios.
pub mod bidirectional;
pub mod fragmentation;
pub mod inbound_flood;
pub mod lock_contention;
pub mod pool_payout;

use vstd::prelude::*;

use crate::load::patterns::{LoadPattern, Rate};

verus! {

/// What a phase of a scenario does.
#[derive(Clone, Copy, Debug, PartialEq, Eq, Structural)]
pub enum Work {
    /// Send to the address pool at the pace of a pattern.
    Load { pattern: LoadPattern, amount: u64, batch_size: usize },
    /// Split funds.
    Split { amount_per_utxo: u64, target_count: u64, max_per_round: u64 },
    /// Send to the wallet itself, then wait for confirmation.
    SendToSelf { amount: u64 },
    /// Send to the address pool as fast as possible, then cool down.
    SendToPool { count: u64, amount: u64, cooldown_secs: u64 },
    /// Watch for incoming transactions.
    Watch { duration_secs: u64, poll_secs: u64 },
}

/// A phase of a scenario, with the name under which it is recorded.
#[derive(Debug)]
pub struct Phase {
    pub label: &'static str,
    pub work: Work,
}

/// The contents of a `Phase`.
pub struct PhaseView {
    pub label: Seq<char>,
    pub work: Work,
}

impl View for Phase {
    type V = PhaseView;

    open spec fn view(&self) -> PhaseView {
        PhaseView { label: self.label@, work: self.work }
    }
}

/// The contents of a list of phases.
pub open spec fn phase_views(v: Seq<Phase>) -> Seq<PhaseView> {
    v.map_values(|p: Phase| p@)
}

/// The type under which the sends of a phase are recorded, where it is the
/// same for all of them.
pub open spec fn tx_type_of(work: Work) -> Seq<char> {
    match work {
        Work::SendToSelf { .. } => "aggregation_send"@,
        Work::SendToPool { .. } => "sequential_send"@,
        Work::Watch { .. } => "inbound_detect"@,
        Work::Load { .. } | Work::Split { .. } => ""@,
    }
}

impl Work {
    /// The type under which the sends of a phase are recorded, where it is the
    /// same for all of them.
    pub fn tx_type(&self) -> (r: &'static str)
        ensures
            r@ == tx_type_of(*self),
    {
        match self {
            Work::SendToSelf { .. } => "aggregation_send",
            Work::SendToPool { .. } => "sequential_send",
            Work::Watch { .. } => "inbound_detect",
            Work::Load { .. } | Work::Split { .. } => "",
        }
    }
}

/// What a scenario is.
pub struct ScenarioView {
    pub name: Seq<char>,
    pub budget: u64,
    pub required_utxos: u64,
    pub split_amount: int,
    pub phases: Seq<PhaseView>,
}

/// Common interface for all test scenarios.
pub trait Scenario {
    /// What the scenario is.
    spec fn profile(&self) -> ScenarioView;

    /// Human-readable scenario name.
    fn name(&self) -> (r: &'static str)
        ensures
            r@ == self.profile().name,
    ;

    /// Budget allocation in MicroMinotari for this scenario.
    fn budget(&self) -> (r: u64)
        ensures
            r == self.profile().budget,
    ;

    /// Minimum number of confirmed UTXOs this scenario needs before starting.
    /// The orchestrator will pre-split if the wallet doesn't have enough.
    fn required_utxos(&self) -> (r: u64)
        ensures
            r == self.profile().required_utxos,
    ;

    /// Amount per UTXO when pre-splitting (in MicroMinotari).
    /// Each UTXO should cover one send + fee headroom.
    fn split_amount(&self) -> (r: u64)
        requires
            self.profile().split_amount <= u64::MAX,
        ensures
            r == self.profile().split_amount,
    ;

    /// The phases of the scenario, in order.
    fn run(&self) -> (r: Vec<Phase>)
        ensures
            phase_views(r@) == self.profile().phases,
    ;
}

/// The split amount of a scenario that names none: 100 tXTM.
pub const DEFAULT_SPLIT_AMOUNT: u64 = 100_000_000;

/// How many transactions a rate schedules in so many seconds.
pub open spec fn scheduled(rate: Rate, duration_secs: u64) -> int {
    rate.txs * duration_secs / (rate.per_secs as int)
}

/// What a phase is scheduled to pay to others, without fees: at the highest
/// rate of a ramp, and on average where the waits are random. What goes to the
/// wallet itself is not paid out.
pub open spec fn scheduled_amount(work: Work) -> int {
    match work {
        Work::Load { pattern, amount, .. } => match pattern {
            LoadPattern::Constant { rate, duration_secs } => scheduled(rate, duration_secs)
                * amount,
            LoadPattern::Ramp { max_txs, per_secs, duration_secs, .. } => scheduled(
                Rate { txs: max_txs, per_secs },
                duration_secs,
            ) * amount,
            LoadPattern::Burst { count } => count * amount,
            LoadPattern::Poisson { rate, duration_secs } => scheduled(rate, duration_secs)
                * amount,
        },
        Work::SendToPool { count, amount, .. } => count * amount,
        Work::Split { .. } | Work::SendToSelf { .. } | Work::Watch { .. } => 0,
    }
}

/// What a list of phases is scheduled to pay to others.
pub open spec fn scheduled_total(phases: Seq<PhaseView>) -> int
    decreases phases.len(),
{
    if phases.len() == 0 {
        0
    } else {
        scheduled_total(phases.drop_last()) + scheduled_amount(phases.last().work)
    }
}

/// Sends to the wallet itself, to the pool and incoming ones are recorded under
/// types of their own.
pub proof fn law_work_is_recorded_under_its_type(work: Work, r: &'static str)
    requires
        call_ensures(Work::tx_type, (&work,), r),
    ensures
        work is SendToSelf ==> r@ == "aggregation_send"@,
        work is SendToPool ==> r@ == "sequential_send"@,
        work is Watch ==> r@ == "inbound_detect"@,
        work is Load || work is Split ==> r@ == ""@,
{
}

} // verus!
