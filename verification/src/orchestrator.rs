//! What the commands do: setup, preparation of wallets, runs of scenarios and
//! reports.
use vstd::prelude::*;
use vstd::string::*;

use crate::address_pool::{
    addresses_of, entry_valid, entry_views, stored_addresses, AddressPool, AddressPoolEntry,
    AddressPoolEntryView, AddressPoolView, Recipient, RecipientView,
};
use crate::config::{
    default_base_node_url, law_setup_is_enough, node_url, resolved_seed_words, resolved_url,
    Command, ScenarioName, SetupConfig, SetupState, WalletConfig,
};
use crate::driver::old_wallet_process::grpc_url_of;
use crate::driver::{SendResult, UtxoInfo, WalletBalance};
use crate::fund_management::splitter::nothing_pending;
use crate::load::patterns::Rate;
use crate::metrics::recorder::{
    fee_sum, send_record, MetricsCollector, Timing, TransactionRecord,
};
use crate::scenarios::bidirectional::BidirectionalScenario;
use crate::scenarios::fragmentation::FragmentationScenario;
use crate::scenarios::inbound_flood::InboundFloodScenario;
use crate::scenarios::lock_contention::LockContentionScenario;
use crate::scenarios::pool_payout::{
    payout_phases, payout_split, PoolPayoutScenario, POOL_BATCH_SIZE,
};
use crate::scenarios::{
    phase_views, scheduled, scheduled_amount, scheduled_total, Phase, PhaseView, Scenario,
    ScenarioView,
};
use crate::tari::{
    invalid_network_text, network_named, network_or, parse_network, restore_seed, seed_of_phrase,
    unknown_network_text, Network,
};
use crate::text::{
    clone_opt, concat, contains, contains_text, decimal, decimal_string, is_word, join, joined,
    labelled, lowercased, opt_view, texts,
};
use crate::time::{is_over, secs_ns};

verus! {

/// MicroMinotari in one tXTM.
pub const MICRO_PER_TXTM: u64 = 1_000_000;

// ---------------------------------------------------------------------------
// Scenarios
// ---------------------------------------------------------------------------

/// A scenario, ready to be run.
#[derive(Debug)]
pub struct ScenarioPlan {
    pub name: &'static str,
    pub budget: u64,
    pub required_utxos: u64,
    pub split_amount: u64,
    pub phases: Vec<Phase>,
}

impl ScenarioPlan {
    /// The plan is that of a scenario.
    pub open spec fn is_of(self, profile: ScenarioView) -> bool {
        &&& self.name@ == profile.name
        &&& self.budget == profile.budget
        &&& self.required_utxos == profile.required_utxos
        &&& self.split_amount == profile.split_amount
        &&& phase_views(self.phases@) == profile.phases
    }
}

/// Draws up the plan of a scenario.
fn plan_of<S: Scenario>(scenario: &S) -> (r: ScenarioPlan)
    requires
        scenario.profile().split_amount <= u64::MAX,
    ensures
        r.is_of(scenario.profile()),
{
    ScenarioPlan {
        name: scenario.name(),
        budget: scenario.budget(),
        required_utxos: scenario.required_utxos(),
        split_amount: scenario.split_amount(),
        phases: scenario.run(),
    }
}

/// What the scenario of a name is, with payouts of `batch_size` recipients.
pub open spec fn profile_of(name: ScenarioName, batch_size: usize) -> ScenarioView {
    match name {
        ScenarioName::PoolPayout => ScenarioView {
            name: "pool_payout"@,
            budget: 40_000_000_000,
            required_utxos: if batch_size > 1 {
                20
            } else {
                700
            },
            split_amount: payout_split(batch_size),
            phases: payout_phases(batch_size),
        },
        ScenarioName::InboundFlood => InboundFloodScenario.profile(),
        ScenarioName::Bidirectional => BidirectionalScenario.profile(),
        ScenarioName::Fragmentation => FragmentationScenario.profile(),
        ScenarioName::LockContention => LockContentionScenario.profile(),
    }
}

/// The scenario of a name, with payouts of `batch_size` recipients.
pub fn get_scenario(name: ScenarioName, batch_size: usize) -> (r: ScenarioPlan)
    requires
        profile_of(name, batch_size).split_amount <= u64::MAX,
    ensures
        r.is_of(profile_of(name, batch_size)),
{
    match name {
        ScenarioName::PoolPayout => plan_of(&PoolPayoutScenario::new().with_batch_size(batch_size)),
        ScenarioName::InboundFlood => plan_of(&InboundFloodScenario),
        ScenarioName::Bidirectional => plan_of(&BidirectionalScenario),
        ScenarioName::Fragmentation => plan_of(&FragmentationScenario),
        ScenarioName::LockContention => plan_of(&LockContentionScenario),
    }
}

/// All scenarios, in the order in which they are run.
pub open spec fn scenario_order() -> Seq<ScenarioName> {
    seq![
        ScenarioName::PoolPayout,
        ScenarioName::InboundFlood,
        ScenarioName::Bidirectional,
        ScenarioName::Fragmentation,
        ScenarioName::LockContention,
    ]
}

/// All scenarios, in the order in which they are run.
pub fn all_scenarios() -> (r: Vec<ScenarioName>)
    ensures
        r@ == scenario_order(),
{
    let mut all: Vec<ScenarioName> = Vec::new();
    all.push(ScenarioName::PoolPayout);
    all.push(ScenarioName::InboundFlood);
    all.push(ScenarioName::Bidirectional);
    all.push(ScenarioName::Fragmentation);
    all.push(ScenarioName::LockContention);
    assert(all@ =~= scenario_order());
    all
}

/// Each scenario is among them, once.
pub proof fn law_all_scenarios_are_run(name: ScenarioName)
    ensures
        exists|i: int|
            0 <= i < scenario_order().len() && #[trigger] scenario_order()[i] == name,
        scenario_order().no_duplicates(),
{
    let order = scenario_order();
    assert(order[0] == ScenarioName::PoolPayout);
    assert(order[1] == ScenarioName::InboundFlood);
    assert(order[2] == ScenarioName::Bidirectional);
    assert(order[3] == ScenarioName::Fragmentation);
    assert(order[4] == ScenarioName::LockContention);
}

/// The budget of a scenario covers what it is scheduled to pay out, whatever
/// the batch size.
pub proof fn law_budget_covers_payouts(name: ScenarioName, batch_size: usize)
    ensures
        scheduled_total(profile_of(name, batch_size).phases) <= profile_of(name, batch_size).budget,
{
    let phases = profile_of(name, batch_size).phases;
    lemma_total_of_prefix(phases, 0);
    lemma_total_of_prefix(phases, 1);
    lemma_total_of_prefix(phases, 2);
    lemma_total_of_prefix(phases, 3);
    lemma_total_of_prefix(phases, 4);
    lemma_total_of_prefix(phases, 5);
    match name {
        ScenarioName::PoolPayout => {
            assert(scheduled(Rate { txs: 5, per_secs: 1 }, 120) == 600) by (nonlinear_arith);
            assert(scheduled_amount(phases[0].work) == 600 * 50_000_000);
            assert(scheduled_amount(phases[1].work) == 50 * 50_000_000);
        },
        ScenarioName::InboundFlood => {
            assert(scheduled(Rate { txs: 1, per_secs: 2 }, 120) == 60) by (nonlinear_arith);
            assert(scheduled_amount(phases[0].work) == 60 * 1_000_000);
        },
        ScenarioName::Bidirectional => {
            assert(scheduled_amount(phases[0].work) == 150 * 50_000_000);
        },
        ScenarioName::Fragmentation => {},
        ScenarioName::LockContention => {
            assert(scheduled_amount(phases[0].work) == 10 * 50_000_000);
            assert(scheduled_amount(phases[1].work) == 25 * 50_000_000);
            assert(scheduled_amount(phases[2].work) == 50 * 50_000_000);
        },
    }
}

proof fn lemma_total_of_prefix(phases: Seq<PhaseView>, n: int)
    ensures
        0 < n <= phases.len() ==> scheduled_total(phases.take(n)) == scheduled_total(
            phases.take(n - 1),
        ) + scheduled_amount(phases[n - 1].work),
        n == 0 ==> scheduled_total(phases.take(n)) == 0,
        n == phases.len() ==> scheduled_total(phases) == scheduled_total(phases.take(n)),
{
    if 0 < n <= phases.len() {
        assert(phases.take(n).drop_last() =~= phases.take(n - 1));
    }
    if n == phases.len() {
        assert(phases.take(n) =~= phases);
    }
}

/// Verify the wallet has enough balance for the scenario's budget.
pub fn check_budget(balance: WalletBalance, budget: u64) -> (r: bool)
    ensures
        r == (balance.available >= budget),
{
    balance.available >= budget
}

// ---------------------------------------------------------------------------
// Enough UTXOs
// ---------------------------------------------------------------------------

/// The UTXOs that hold at least `min_value`.
pub open spec fn usable(utxos: Seq<UtxoInfo>, min_value: u64) -> Seq<UtxoInfo> {
    utxos.filter(|u: UtxoInfo| u.value >= min_value)
}

/// Count UTXOs large enough to fund a send of `min_value` (amount + fee headroom).
pub fn count_usable_utxos(utxos: &Vec<UtxoInfo>, min_value: u64) -> (r: u64)
    ensures
        r == usable(utxos@, min_value).len(),
{
    let mut count: u64 = 0;
    let mut i: usize = 0;
    proof {
        reveal(Seq::filter);
        assert(utxos@.take(0) =~= Seq::empty());
    }
    while i < utxos.len()
        invariant
            i <= utxos.len(),
            count <= i,
            count == usable(utxos@.take(i as int), min_value).len(),
        decreases utxos.len() - i,
    {
        proof {
            reveal(Seq::filter);
            assert(utxos@.take(i + 1).drop_last() =~= utxos@.take(i as int));
        }
        if utxos[i].value >= min_value {
            count = count + 1;
        }
        i = i + 1;
    }
    assert(utxos@.take(i as int) =~= utxos@);
    count
}

/// What each split UTXO costs on top of its amount, as headroom for the fee.
pub const SPLIT_FEE_PER_UTXO: u64 = 5_000;

/// How long to wait for funds.
pub const FUNDS_TIMEOUT_SECS: u64 = 900;

/// How long to wait for pending transactions before counting.
pub const PENDING_TIMEOUT_SECS: u64 = 600;

/// Seconds between two looks at the funds.
pub const FUNDS_POLL_SECS: u64 = 30;

/// UTXOs created in one round.
pub const MAX_SPLIT_PER_ROUND: u64 = 200;

/// Where the preparation of UTXOs stands: what it waits to hear.
#[derive(Clone, Copy, Debug, PartialEq, Eq, Structural)]
pub enum UtxoStage {
    /// The balance, to see whether anything is pending.
    Pending,
    /// The end of the wait for pending transactions.
    Clearing,
    /// The first count.
    Counting,
    /// The balance, to see whether it covers a split.
    Funding,
    /// The count after a pause.
    Recounting,
    /// The end of a split.
    Splitting,
    /// The count after the split.
    Verifying,
    /// Nothing: it is over.
    Over,
}

/// What the preparation of UTXOs hears.
#[derive(Clone, Copy, Debug, PartialEq, Eq, Structural)]
pub enum UtxoEvent {
    Balance { balance: WalletBalance },
    PendingCleared,
    Counted { have: u64 },
    SplitDone,
    /// The split failed; `unsettled` tells that funds were not yet settled.
    SplitFailed { unsettled: bool },
}

/// What the preparation of UTXOs does next.
#[derive(Clone, Copy, Debug, PartialEq, Eq, Structural)]
pub enum UtxoAction {
    /// Look at the balance.
    GetBalance,
    /// Wait until nothing is pending, at most so long.
    AwaitPending { max_wait_secs: u64 },
    /// Sync, then count the usable UTXOs.
    SyncAndCount,
    /// Count the usable UTXOs.
    Count,
    /// Pause, sync, then count the usable UTXOs.
    PauseAndCount { secs: u64 },
    /// Split.
    Split { amount_per_utxo: u64, target_count: u64, max_per_round: u64 },
    /// There are enough UTXOs.
    Ready { have: u64 },
    /// The split is done, and there are still too few; some sends may fail.
    Short { have: u64 },
    /// The funds did not come in time.
    FundsTimedOut { required_balance: u64 },
    /// The split went on failing for unsettled funds.
    SettleTimedOut,
    /// The split failed.
    SplitFailed,
}

/// The preparation of UTXOs under way.
#[derive(Clone, Copy, Debug, PartialEq, Eq, Structural)]
pub struct UtxoGuard {
    pub required: u64,
    pub split_amount: u64,
    /// Usable UTXOs at the last count.
    pub have: u64,
    pub stage: UtxoStage,
    /// When splitting began.
    pub split_start_ns: u128,
}

impl UtxoGuard {
    /// Splits are needed where they are thought of.
    pub open spec fn wf(self) -> bool {
        (self.stage == UtxoStage::Funding || self.stage == UtxoStage::Recounting || self.stage
            == UtxoStage::Splitting) ==> self.have < self.required
    }

    /// Where the next step needs what the missing UTXOs cost, it can be
    /// computed.
    pub open spec fn can_cost(self) -> bool {
        self.stage == UtxoStage::Funding ==> self.required_balance() <= u64::MAX
    }

    /// How many UTXOs are missing.
    pub open spec fn missing(self) -> int {
        if self.have < self.required {
            self.required - self.have
        } else {
            0
        }
    }

    /// What the missing UTXOs cost, fees included.
    pub open spec fn required_balance(self) -> int {
        self.missing() * (self.split_amount + SPLIT_FEE_PER_UTXO)
    }

    /// The event is one that the stage waits for.
    pub open spec fn expects(self, event: UtxoEvent) -> bool {
        match self.stage {
            UtxoStage::Pending => event is Balance,
            UtxoStage::Clearing => event is PendingCleared,
            UtxoStage::Counting => event is Counted,
            UtxoStage::Funding => event is Balance,
            UtxoStage::Recounting => event is Counted,
            UtxoStage::Splitting => event is SplitDone || event is SplitFailed,
            UtxoStage::Verifying => event is Counted,
            UtxoStage::Over => false,
        }
    }

    /// The time for the funds is up.
    pub open spec fn too_late(self, elapsed_ns: u128) -> bool {
        elapsed_ns - self.split_start_ns > secs_ns(FUNDS_TIMEOUT_SECS)
    }

    /// What an event leads to.
    pub open spec fn action_after(self, event: UtxoEvent, elapsed_ns: u128) -> UtxoAction {
        match (self.stage, event) {
            (UtxoStage::Pending, UtxoEvent::Balance { balance }) => if nothing_pending(balance) {
                UtxoAction::SyncAndCount
            } else {
                UtxoAction::AwaitPending { max_wait_secs: PENDING_TIMEOUT_SECS }
            },
            (UtxoStage::Clearing, _) => UtxoAction::SyncAndCount,
            (UtxoStage::Counting, UtxoEvent::Counted { have }) => if have >= self.required {
                UtxoAction::Ready { have }
            } else {
                UtxoAction::GetBalance
            },
            (UtxoStage::Recounting, UtxoEvent::Counted { have }) => if have >= self.required {
                UtxoAction::Ready { have }
            } else {
                UtxoAction::GetBalance
            },
            (UtxoStage::Funding, UtxoEvent::Balance { balance }) => if balance.available
                >= self.required_balance() {
                UtxoAction::Split {
                    amount_per_utxo: self.split_amount,
                    target_count: self.missing() as u64,
                    max_per_round: MAX_SPLIT_PER_ROUND,
                }
            } else if self.too_late(elapsed_ns) {
                UtxoAction::FundsTimedOut { required_balance: self.required_balance() as u64 }
            } else {
                UtxoAction::PauseAndCount { secs: FUNDS_POLL_SECS }
            },
            (UtxoStage::Splitting, UtxoEvent::SplitDone) => UtxoAction::Count,
            (UtxoStage::Splitting, UtxoEvent::SplitFailed { unsettled }) => if !unsettled {
                UtxoAction::SplitFailed
            } else if self.too_late(elapsed_ns) {
                UtxoAction::SettleTimedOut
            } else {
                UtxoAction::PauseAndCount { secs: FUNDS_POLL_SECS }
            },
            (UtxoStage::Verifying, UtxoEvent::Counted { have }) => if have >= self.required {
                UtxoAction::Ready { have }
            } else {
                UtxoAction::Short { have }
            },
            _ => UtxoAction::GetBalance,
        }
    }

    /// The stage that goes with an action.
    pub open spec fn stage_of(action: UtxoAction) -> UtxoStage {
        match action {
            UtxoAction::GetBalance => UtxoStage::Funding,
            UtxoAction::AwaitPending { .. } => UtxoStage::Clearing,
            UtxoAction::SyncAndCount => UtxoStage::Counting,
            UtxoAction::Count => UtxoStage::Verifying,
            UtxoAction::PauseAndCount { .. } => UtxoStage::Recounting,
            UtxoAction::Split { .. } => UtxoStage::Splitting,
            _ => UtxoStage::Over,
        }
    }

    /// The preparation after an event. Splitting begins with the first count
    /// that finds too few.
    pub open spec fn state_after(self, event: UtxoEvent, elapsed_ns: u128) -> UtxoGuard {
        UtxoGuard {
            have: match event {
                UtxoEvent::Counted { have } => have,
                _ => self.have,
            },
            stage: Self::stage_of(self.action_after(event, elapsed_ns)),
            split_start_ns: if self.stage == UtxoStage::Counting {
                elapsed_ns
            } else {
                self.split_start_ns
            },
            ..self
        }
    }

    /// A preparation that is about to begin.
    pub open spec fn begun(required: u64, split_amount: u64) -> UtxoGuard {
        UtxoGuard {
            required,
            split_amount,
            have: 0,
            stage: UtxoStage::Pending,
            split_start_ns: 0,
        }
    }

    /// Whether what the missing UTXOs cost can be computed, where the next step
    /// needs it.
    pub fn can_step(&self) -> (r: bool)
        requires
            self.wf(),
        ensures
            r == self.can_cost(),
    {
        if self.stage != UtxoStage::Funding {
            return true;
        }
        let missing: u64 = self.required - self.have;
        match self.split_amount.checked_add(SPLIT_FEE_PER_UTXO) {
            Some(each) => missing.checked_mul(each).is_some(),
            None => {
                proof {
                    let each = self.split_amount + SPLIT_FEE_PER_UTXO;
                    assert(missing * each >= each) by (nonlinear_arith)
                        requires
                            missing >= 1,
                            each >= 0,
                    ;
                }
                false
            },
        }
    }

    /// Starts the preparation of `required` UTXOs of at least `split_amount`,
    /// or none where no UTXOs are required. The balance is looked at first.
    pub fn ensure_utxos(required: u64, split_amount: u64) -> (r: Option<Self>)
        ensures
            required == 0 ==> r is None,
            required > 0 ==> r == Some(UtxoGuard::begun(required, split_amount)),
            UtxoGuard::begun(required, split_amount).wf(),
    {
        if required == 0 {
            return None;
        }
        Some(
            UtxoGuard {
                required,
                split_amount,
                have: 0,
                stage: UtxoStage::Pending,
                split_start_ns: 0,
            },
        )
    }

    /// Whether the time for the funds is up.
    fn is_too_late(&self, elapsed_ns: u128) -> (r: bool)
        ensures
            r == self.too_late(elapsed_ns),
    {
        elapsed_ns > self.split_start_ns && is_over(
            elapsed_ns - self.split_start_ns,
            FUNDS_TIMEOUT_SECS,
        )
    }

    /// Decides about a balance that is to cover a split.
    fn fund(&self, balance: WalletBalance, elapsed_ns: u128) -> (r: UtxoAction)
        requires
            self.wf(),
            self.can_cost(),
            self.stage == UtxoStage::Funding,
        ensures
            r == self.action_after(UtxoEvent::Balance { balance }, elapsed_ns),
    {
        let missing: u64 = self.required.saturating_sub(self.have);
        proof {
            let each = self.split_amount + SPLIT_FEE_PER_UTXO;
            assert(missing * each >= each) by (nonlinear_arith)
                requires
                    missing >= 1,
                    each >= 0,
            ;
        }
        let each: u64 = self.split_amount + SPLIT_FEE_PER_UTXO;
        let required_balance: u64 = missing * each;
        if balance.available >= required_balance {
            UtxoAction::Split {
                amount_per_utxo: self.split_amount,
                target_count: missing,
                max_per_round: MAX_SPLIT_PER_ROUND,
            }
        } else if self.is_too_late(elapsed_ns) {
            UtxoAction::FundsTimedOut { required_balance }
        } else {
            UtxoAction::PauseAndCount { secs: FUNDS_POLL_SECS }
        }
    }

    /// Takes note of an event and decides what to do next.
    pub fn step(&mut self, event: UtxoEvent, elapsed_ns: u128) -> (r: UtxoAction)
        requires
            old(self).wf(),
            old(self).can_cost(),
            old(self).expects(event),
        ensures
            r == old(self).action_after(event, elapsed_ns),
            *final(self) == old(self).state_after(event, elapsed_ns),
            final(self).wf(),
    {
        let action: UtxoAction = match event {
            UtxoEvent::Balance { balance } => if self.stage == UtxoStage::Pending {
                if balance.pending_incoming == 0 && balance.pending_outgoing == 0 {
                    UtxoAction::SyncAndCount
                } else {
                    UtxoAction::AwaitPending { max_wait_secs: PENDING_TIMEOUT_SECS }
                }
            } else {
                self.fund(balance, elapsed_ns)
            },
            UtxoEvent::PendingCleared => UtxoAction::SyncAndCount,
            UtxoEvent::Counted { have } => if have >= self.required {
                UtxoAction::Ready { have }
            } else if self.stage == UtxoStage::Verifying {
                UtxoAction::Short { have }
            } else {
                UtxoAction::GetBalance
            },
            UtxoEvent::SplitDone => UtxoAction::Count,
            UtxoEvent::SplitFailed { unsettled } => if !unsettled {
                UtxoAction::SplitFailed
            } else if self.is_too_late(elapsed_ns) {
                UtxoAction::SettleTimedOut
            } else {
                UtxoAction::PauseAndCount { secs: FUNDS_POLL_SECS }
            },
        };
        if let UtxoEvent::Counted { have } = event {
            self.have = have;
            if self.stage == UtxoStage::Counting {
                self.split_start_ns = elapsed_ns;
            }
        }
        self.stage =
        match action {
            UtxoAction::GetBalance => UtxoStage::Funding,
            UtxoAction::AwaitPending { .. } => UtxoStage::Clearing,
            UtxoAction::SyncAndCount => UtxoStage::Counting,
            UtxoAction::Count => UtxoStage::Verifying,
            UtxoAction::PauseAndCount { .. } => UtxoStage::Recounting,
            UtxoAction::Split { .. } => UtxoStage::Splitting,
            _ => UtxoStage::Over,
        };
        action
    }
}

/// The preparation splits only what is missing, and only with funds at hand
/// that cover it, fees included; it is ready only with enough UTXOs; and it
/// pauses for funds only while their time is not up.
pub proof fn law_splits_are_funded(guard: UtxoGuard, event: UtxoEvent, elapsed_ns: u128)
    requires
        guard.wf(),
        guard.expects(event),
    ensures
        guard.action_after(event, elapsed_ns) matches UtxoAction::Split {
            amount_per_utxo,
            target_count,
            ..
        } ==> target_count > 0 && target_count + guard.have == guard.required && (
        event matches UtxoEvent::Balance { balance } && balance.available >= target_count * (
        amount_per_utxo + SPLIT_FEE_PER_UTXO)),
        guard.action_after(event, elapsed_ns) matches UtxoAction::Ready { have } ==> have
            >= guard.required,
        guard.action_after(event, elapsed_ns) is PauseAndCount ==> !guard.too_late(elapsed_ns),
        guard.state_after(event, elapsed_ns).wf(),
{
}

/// A failed split is tried again where funds were not settled yet.
pub open spec fn is_unsettled(message: Seq<char>) -> bool {
    contains_text(message, "FundsPending"@) || contains_text(message, "funds"@)
}

/// Whether a split failed because funds were not settled yet.
pub fn funds_unsettled(message: &str) -> (r: bool)
    ensures
        r == is_unsettled(message@),
{
    contains(message, "FundsPending") || contains(message, "funds")
}

/// An amount in whole tXTM.
pub open spec fn txtm(amount: u64) -> Seq<char> {
    decimal((amount / MICRO_PER_TXTM) as nat)
}

/// What is said where the funds did not come in time.
pub open spec fn funds_timeout_text(
    wallet: Seq<char>,
    required_balance: u64,
    balance: WalletBalance,
) -> Seq<char> {
    "["@ + wallet + "] Timed out waiting for sufficient available balance. Need "@ + txtm(
        required_balance,
    ) + " tXTM, have "@ + txtm(balance.available) + " tXTM available ("@ + txtm(
        balance.pending_outgoing,
    ) + " tXTM pending out, "@ + txtm(balance.pending_incoming) + " tXTM pending in)"@
}

/// What is said where the funds did not come in time.
pub fn funds_timeout_error(wallet: &str, required_balance: u64, balance: WalletBalance) -> (r:
    String)
    ensures
        r@ == funds_timeout_text(wallet@, required_balance, balance),
{
    let mut text = concat("[", wallet);
    text.append("] Timed out waiting for sufficient available balance. Need ");
    text.append(decimal_string(required_balance / MICRO_PER_TXTM).as_str());
    text.append(" tXTM, have ");
    text.append(decimal_string(balance.available / MICRO_PER_TXTM).as_str());
    text.append(" tXTM available (");
    text.append(decimal_string(balance.pending_outgoing / MICRO_PER_TXTM).as_str());
    text.append(" tXTM pending out, ");
    text.append(decimal_string(balance.pending_incoming / MICRO_PER_TXTM).as_str());
    text.append(" tXTM pending in)");
    text
}

// ---------------------------------------------------------------------------
// Baseline
// ---------------------------------------------------------------------------

/// What the warm-up transaction sends: 1 tXTM.
pub const WARMUP_AMOUNT: u64 = 1_000_000;

/// A question to a wallet that has to be answered before it is warmed up.
#[derive(Clone, Copy, Debug, PartialEq, Eq, Structural)]
pub enum WalletCheck {
    Balance,
    Address,
}

/// What is said where a wallet does not answer a question.
pub fn check_context(wallet: WalletKind, check: WalletCheck) -> (r: &'static str)
    ensures
        r@ == (match (wallet, check) {
            (WalletKind::Old, WalletCheck::Balance) => "Old wallet balance check"@,
            (WalletKind::Old, WalletCheck::Address) => "Old wallet address"@,
            (WalletKind::New, WalletCheck::Balance) => "New wallet balance check"@,
            (WalletKind::New, WalletCheck::Address) => "New wallet address"@,
        }),
{
    match (wallet, check) {
        (WalletKind::Old, WalletCheck::Balance) => "Old wallet balance check",
        (WalletKind::Old, WalletCheck::Address) => "Old wallet address",
        (WalletKind::New, WalletCheck::Balance) => "New wallet balance check",
        (WalletKind::New, WalletCheck::Address) => "New wallet address",
    }
}

/// Who a warm-up transaction pays, and how much: the next address of the pool.
pub fn warmup_recipient(pool: &mut AddressPool) -> (r: Recipient)
    requires
        old(pool)@.addresses.len() > 0,
    ensures
        r@ == (RecipientView { address: old(pool)@.address_at(0), amount: WARMUP_AMOUNT }),
        final(pool)@ == old(pool)@.advanced(1),
{
    Recipient { address: pool.next_address(), amount: WARMUP_AMOUNT }
}

/// Records a warm-up transaction whose fee is known; one whose fee is not
/// known is not recorded.
pub fn record_warmup(
    collector: &mut MetricsCollector,
    wallet: &str,
    result: &SendResult,
    timing: Timing,
)
    requires
        old(collector).wf(),
        result.fee matches Some(f) ==> fee_sum(old(collector)@.transactions) + f <= u64::MAX,
    ensures
        final(collector).wf(),
        final(collector)@ == (if result.fee is Some {
            old(collector)@.with_record(
                send_record(wallet@, "baseline"@, "warmup"@, WARMUP_AMOUNT, result@, timing),
            )
        } else {
            old(collector)@
        }),
{
    if result.fee.is_some() {
        collector.record_transaction(
            TransactionRecord::of_send(
                wallet,
                "baseline",
                "warmup",
                WARMUP_AMOUNT,
                result,
                timing,
            ),
        );
    }
}

// ---------------------------------------------------------------------------
// Setup
// ---------------------------------------------------------------------------

/// Seconds between two looks at wallets that wait to be funded.
pub const FUNDING_POLL_SECS: u64 = 30;

/// Where the seed of the new wallet comes from.
#[derive(Debug)]
pub enum SeedSource {
    /// The wallet exists.
    Existing,
    /// The seed words of an earlier setup.
    Restored { phrase: String },
    /// A new random seed.
    Random,
}

/// The seed words of an earlier setup, given what they decode to.
pub fn settle_restored(phrase: &str, decoded: Result<u16, String>) -> (r: Result<
    SeedSource,
    String,
>)
    ensures
        match decoded {
            Ok(_) => r matches Ok(SeedSource::Restored { phrase: p }) && p@ == phrase@,
            Err(t) => r matches Err(e) && e@ == t@,
        },
{
    match decoded {
        Ok(_) => Ok(SeedSource::Restored { phrase: phrase.to_owned() }),
        Err(e) => Err(e),
    }
}

/// Decides where the seed of the new wallet comes from: a wallet that exists
/// is kept; else the seed words of an earlier setup are restored, if there are
/// any.
pub fn seed_source(wallet_exists: bool, setup: &Option<SetupState>) -> (r: Result<
    SeedSource,
    String,
>)
    ensures
        match setup {
            Some(state) if !wallet_exists && state.new_wallet_seed_words@.len() > 0 => {
                match seed_of_phrase(state.new_wallet_seed_words@) {
                    Ok(_) => r matches Ok(SeedSource::Restored { phrase }) && phrase@
                        == state.new_wallet_seed_words@,
                    Err(t) => r matches Err(e) && e@ == "Failed to restore seed: "@ + t,
                }
            },
            _ => if wallet_exists {
                r matches Ok(SeedSource::Existing)
            } else {
                r matches Ok(SeedSource::Random)
            },
        },
{
    if wallet_exists {
        return Ok(SeedSource::Existing);
    }
    match setup {
        Some(state) => {
            if state.new_wallet_seed_words.as_str().unicode_len() == 0 {
                return Ok(SeedSource::Random);
            }
            let phrase = state.new_wallet_seed_words.as_str();
            settle_restored(phrase, restore_seed("Failed to restore seed: ", phrase))
        },
        None => Ok(SeedSource::Random),
    }
}

/// The state that a setup leaves behind.
pub open spec fn setup_leaves(
    config: SetupConfig,
    new_wallet_db: Seq<char>,
    seed_words: Seq<Seq<char>>,
    old_address: Seq<char>,
    new_address: Seq<char>,
    state: SetupState,
) -> bool {
    &&& state.old_wallet_grpc@ == grpc_url_of(config.old_wallet_grpc_port)
    &&& state.old_wallet_binary@ == config.old_wallet_binary@
    &&& state.new_wallet_db@ == new_wallet_db
    &&& state.new_wallet_seed_words@ == joined(seed_words, " "@)
    &&& state.base_node_url@ == (match opt_view(config.base_node_url) {
        Some(url) => url,
        None => node_url(lowercased(config.network@)),
    })
    &&& state.network@ == config.network@
    &&& state.old_wallet_address@ == old_address
    &&& state.new_wallet_address@ == new_address
}

/// The state to keep for the commands that follow.
pub fn setup_state(
    config: &SetupConfig,
    new_wallet_db: &str,
    seed_words: &Vec<String>,
    old_address: &str,
    new_address: &str,
) -> (r: SetupState)
    ensures
        setup_leaves(
            *config,
            new_wallet_db@,
            texts(seed_words@),
            old_address@,
            new_address@,
            r,
        ),
{
    let base_node_url = match clone_opt(&config.base_node_url) {
        Some(url) => url,
        None => default_base_node_url(config.network.as_str()),
    };
    SetupState {
        old_wallet_grpc: labelled("http://127.0.0.1:", config.old_wallet_grpc_port as u64),
        old_wallet_binary: config.old_wallet_binary.clone(),
        new_wallet_db: new_wallet_db.to_owned(),
        new_wallet_seed_words: join(seed_words, " "),
        base_node_url,
        network: config.network.clone(),
        old_wallet_address: old_address.to_owned(),
        new_wallet_address: new_address.to_owned(),
    }
}

/// After a setup the other commands find, without any flags, the base node
/// that the setup resolved and the seed words of the wallet that it made.
pub proof fn law_setup_is_found_again(
    config: SetupConfig,
    new_wallet_db: Seq<char>,
    seed_words: Seq<Seq<char>>,
    old_address: Seq<char>,
    new_address: Seq<char>,
    state: SetupState,
    network: Seq<char>,
)
    requires
        setup_leaves(config, new_wallet_db, seed_words, old_address, new_address, state),
        forall|i: int| 0 <= i < seed_words.len() ==> is_word(#[trigger] seed_words[i]),
    ensures
        resolved_seed_words(None, Some(state)) == seed_words,
        resolved_url(None, Some(state), network) == (match opt_view(config.base_node_url) {
            Some(url) => url,
            None => node_url(lowercased(config.network@)),
        }),
{
    reveal_strlit(" ");
    assert(" "@ =~= seq![' ']);
    law_setup_is_enough(seed_words, state, network);
}

/// What a setup does about the funding of the wallets.
#[derive(Clone, Copy, Debug, PartialEq, Eq, Structural)]
pub enum FundingStep {
    /// Both wallets are funded.
    Funded,
    /// Look again after so many seconds.
    Wait { secs: u64 },
}

/// Decides about the funding of the wallets, given what each has, where it
/// could be asked. `min_balance_txm` is in tXTM.
pub fn funding_step(old: Option<u64>, new: Option<u64>, min_balance_txm: u64) -> (r: FundingStep)
    requires
        min_balance_txm * MICRO_PER_TXTM <= u64::MAX,
    ensures
        r == (match (old, new) {
            (Some(a), Some(b)) if a >= min_balance_txm * MICRO_PER_TXTM && b >= min_balance_txm
                * MICRO_PER_TXTM => FundingStep::Funded,
            _ => FundingStep::Wait { secs: FUNDING_POLL_SECS },
        }),
{
    let min_balance: u64 = min_balance_txm * MICRO_PER_TXTM;
    let old_ok = match old {
        Some(a) => a >= min_balance,
        None => false,
    };
    let new_ok = match new {
        Some(b) => b >= min_balance,
        None => false,
    };
    if old_ok && new_ok {
        FundingStep::Funded
    } else {
        FundingStep::Wait { secs: FUNDING_POLL_SECS }
    }
}

// ---------------------------------------------------------------------------
// Wallets and address pool
// ---------------------------------------------------------------------------

/// What is the matter with the database of the new wallet.
#[derive(Clone, Copy, Debug, PartialEq, Eq, Structural)]
pub enum WalletDb {
    Present,
    Missing,
    /// It is about to be made anew from the seed words.
    Recreated,
}

/// What the drivers are made from.
#[derive(Debug)]
pub struct DriverInputs {
    pub network: Network,
    pub seed_words: Vec<String>,
    pub base_node_url: String,
}

/// What stands in the way of the drivers, apart from the network, if anything.
pub open spec fn driver_refusal(
    config: WalletConfig,
    setup: Option<SetupState>,
    db: WalletDb,
) -> Option<Seq<char>> {
    if resolved_seed_words(opt_view(config.new_wallet_seed_words), setup).len() == 0 {
        Some(
            "No seed words provided. Either pass --new-wallet-seed-words, set TARI_SEED_WORDS env var, or run `setup` first."@,
        )
    } else if db == WalletDb::Missing {
        Some(
            "Wallet database not found at "@ + config.new_wallet_db@
                + ". Run `setup` first or pass --new-wallet-db."@,
        )
    } else {
        None
    }
}

/// What stands in the way of the drivers, if anything.
pub open spec fn driver_error(
    config: WalletConfig,
    setup: Option<SetupState>,
    db: WalletDb,
) -> Option<Seq<char>> {
    if network_named(lowercased(config.network@)) is None {
        Some(invalid_network_text(config.network@))
    } else {
        driver_refusal(config, setup, db)
    }
}

/// Resolves what the drivers are made from, given what the name of the network
/// was parsed to.
pub fn settle_drivers(
    config: &WalletConfig,
    setup: &Option<SetupState>,
    db: WalletDb,
    network: Result<Network, String>,
) -> (r: Result<DriverInputs, String>)
    ensures
        match network {
            Err(t) => r matches Err(e) && e@ == t@,
            Ok(n) => match driver_refusal(*config, *setup, db) {
                Some(t) => r matches Err(e) && e@ == t,
                None => r matches Ok(d) && d.network == n && texts(d.seed_words@)
                    == resolved_seed_words(opt_view(config.new_wallet_seed_words), *setup)
                    && d.base_node_url@ == resolved_url(
                    opt_view(config.base_node_url),
                    *setup,
                    config.network@,
                ),
            },
        },
{
    let network = match network {
        Ok(n) => n,
        Err(e) => {
            return Err(e);
        },
    };
    let seed_words = config.seed_words(setup);
    assert(texts(seed_words@).len() == seed_words.len());
    if seed_words.len() == 0 {
        return Err(
            "No seed words provided. Either pass --new-wallet-seed-words, set TARI_SEED_WORDS env var, or run `setup` first.".to_owned(),
        );
    }
    if db == WalletDb::Missing {
        let mut text = concat("Wallet database not found at ", config.new_wallet_db.as_str());
        text.append(". Run `setup` first or pass --new-wallet-db.");
        return Err(text);
    }
    Ok(DriverInputs { network, seed_words, base_node_url: config.resolved_base_node_url(setup) })
}

/// Resolves what the drivers are made from.
pub fn create_drivers(config: &WalletConfig, setup: &Option<SetupState>, db: WalletDb) -> (r: Result<
    DriverInputs,
    String,
>)
    ensures
        match driver_error(*config, *setup, db) {
            None => r matches Ok(d) && Some(d.network) == network_named(
                lowercased(config.network@),
            ) && texts(d.seed_words@) == resolved_seed_words(
                opt_view(config.new_wallet_seed_words),
                *setup,
            ) && d.base_node_url@ == resolved_url(
                opt_view(config.base_node_url),
                *setup,
                config.network@,
            ),
            Some(t) => r matches Err(e) && e@ == t,
        },
{
    settle_drivers(config, setup, db, parse_network(config.network.as_str()))
}

/// Generates an address pool where none is stored.
pub fn init_address_pool(network: &str, size: usize) -> (r: Result<
    (AddressPool, Vec<AddressPoolEntry>),
    String,
>)
    ensures
        match network_named(lowercased(network@)) {
            Some(n) => r matches Ok((pool, entries)) && entries.len() == size && pool@ == (
            AddressPoolView { addresses: addresses_of(entries@), counter: 0 }) && (forall|i: int|
                0 <= i < size ==> (#[trigger] entries@[i]).index == i && entry_valid(
                    entries@[i]@,
                    n,
                )),
            None => r matches Err(e) && e@ == invalid_network_text(network@),
        },
{
    match parse_network(network) {
        Ok(n) => AddressPool::generate(size, n),
        Err(e) => Err(e),
    }
}

/// Whether opening the address pool may come to an outcome: the pool, and the
/// entries to be stored, if any. A stored pool decides alone; where there is
/// none, one of the given size is generated for the network, and its entries
/// are stored. Which keys they have is left to chance.
pub open spec fn pool_opens(
    stored: Option<Seq<AddressPoolEntryView>>,
    network: Seq<char>,
    size: usize,
    outcome: Result<(AddressPoolView, Option<Seq<AddressPoolEntryView>>), Seq<char>>,
) -> bool {
    match stored {
        Some(entries) => outcome == Ok::<
            (AddressPoolView, Option<Seq<AddressPoolEntryView>>),
            Seq<char>,
        >((AddressPoolView { addresses: stored_addresses(entries), counter: 0 }, None)),
        None => match network_named(lowercased(network)) {
            Some(n) => outcome matches Ok((pool, written)) && written matches Some(entries) && {
                &&& entries.len() == size
                &&& pool == (AddressPoolView { addresses: stored_addresses(entries), counter: 0 })
                &&& forall|i: int|
                    0 <= i < size ==> (#[trigger] entries[i]).index == i && entry_valid(
                        entries[i],
                        n,
                    )
            },
            None => outcome == Err::<
                (AddressPoolView, Option<Seq<AddressPoolEntryView>>),
                Seq<char>,
            >(invalid_network_text(network)),
        },
    }
}

/// The contents of an opened pool and of the entries to be stored, or the error
/// as text.
pub open spec fn opened_view(
    r: Result<(AddressPool, Option<Vec<AddressPoolEntry>>), String>,
) -> Result<(AddressPoolView, Option<Seq<AddressPoolEntryView>>), Seq<char>> {
    match r {
        Ok((pool, Some(entries))) => Ok((pool@, Some(entry_views(entries@)))),
        Ok((pool, None)) => Ok((pool@, None)),
        Err(e) => Err(e@),
    }
}

/// What is stored once the address pool has been opened.
pub open spec fn stored_after(
    stored: Option<Seq<AddressPoolEntryView>>,
    written: Option<Seq<AddressPoolEntryView>>,
) -> Option<Seq<AddressPoolEntryView>> {
    match written {
        Some(_) => written,
        None => stored,
    }
}

/// Opens the address pool, given the stored entries, if there are any. What
/// comes with the pool is to be stored.
pub fn open_address_pool(
    stored: Option<Vec<AddressPoolEntry>>,
    network: &str,
    size: usize,
) -> (r: Result<(AddressPool, Option<Vec<AddressPoolEntry>>), String>)
    ensures
        pool_opens(
            match stored {
                Some(entries) => Some(entry_views(entries@)),
                None => None,
            },
            network@,
            size,
            opened_view(r),
        ),
{
    match stored {
        Some(entries) => {
            proof {
                assert(addresses_of(entries@) =~= stored_addresses(entry_views(entries@)));
            }
            Ok((AddressPool::from_entries(&entries), None))
        },
        None => match init_address_pool(network, size) {
            Ok((pool, entries)) => {
                proof {
                    assert(addresses_of(entries@) =~= stored_addresses(entry_views(entries@)));
                    assert forall|i: int| 0 <= i < size implies (#[trigger] entry_views(
                        entries@,
                    )[i]) == entries@[i]@ by {}
                }
                Ok((pool, Some(entries)))
            },
            Err(e) => Err(e),
        },
    }
}

/// A stored address pool decides alone: whatever the network and the size, it
/// is opened as it is, and nothing is stored. Where none is stored, and the
/// network is none, nothing is stored either.
pub proof fn law_stored_pool_decides(
    entries: Seq<AddressPoolEntryView>,
    network: Seq<char>,
    size: usize,
    outcome: Result<(AddressPoolView, Option<Seq<AddressPoolEntryView>>), Seq<char>>,
)
    ensures
        pool_opens(Some(entries), network, size, outcome) ==> outcome is Ok && outcome->Ok_0.0
            == (AddressPoolView { addresses: stored_addresses(entries), counter: 0 })
            && stored_after(Some(entries), outcome->Ok_0.1) == Some(entries),
        pool_opens(None, network, size, outcome) && network_named(lowercased(network)) is None
            ==> outcome is Err,
{
}

/// Opening the address pool a second time, for whatever network and size, gives
/// the same addresses and leaves what is stored as it is. What is stored after
/// the first time holds the addresses of the pool, in order.
pub proof fn law_reopened_pool_is_the_same(
    stored: Option<Seq<AddressPoolEntryView>>,
    network: Seq<char>,
    size: usize,
    pool: AddressPoolView,
    written: Option<Seq<AddressPoolEntryView>>,
    later_network: Seq<char>,
    later_size: usize,
    later: Result<(AddressPoolView, Option<Seq<AddressPoolEntryView>>), Seq<char>>,
)
    requires
        pool_opens(stored, network, size, Ok((pool, written))),
        pool_opens(stored_after(stored, written), later_network, later_size, later),
    ensures
        stored_after(stored, written) is Some,
        stored_addresses(stored_after(stored, written)->Some_0) == pool.addresses,
        later == Ok::<(AddressPoolView, Option<Seq<AddressPoolEntryView>>), Seq<char>>(
            (pool, None),
        ),
        stored is None ==> pool.addresses.len() == size,
{
}

/// What is said where there is no pool to drain.
pub fn missing_pool_error(path: &str) -> (r: String)
    ensures
        r@ == "Address pool file not found at "@ + path@ + ". Run setup first."@,
{
    let mut text = concat("Address pool file not found at ", path);
    text.append(". Run setup first.");
    text
}

/// The network of a drain.
pub fn drain_network(name: &str) -> (r: Result<Network, String>)
    ensures
        match network_named(lowercased(name@)) {
            Some(n) => r matches Ok(m) && m == n,
            None => r matches Err(e) && e@ == "Invalid network: "@ + unknown_network_text(name@),
        },
{
    network_or("Invalid network: ", name)
}

// ---------------------------------------------------------------------------
// Commands
// ---------------------------------------------------------------------------

/// Seconds between two samples of a system monitor.
pub const MONITOR_INTERVAL_SECS: u64 = 30;

/// How far a balance may be off: 1 tXTM.
pub const FEE_TOLERANCE: u64 = 1_000_000;

/// The wallets under test.
#[derive(Clone, Copy, Debug, PartialEq, Eq, Structural)]
pub enum WalletKind {
    Old,
    New,
}

/// Where a report goes, below the output directory.
#[derive(Clone, Copy, Debug, PartialEq, Eq, Structural)]
pub enum ReportDir {
    Root,
    OldWallet,
    NewWallet,
    Pool,
}

impl ReportDir {
    /// The subdirectory, if any.
    pub fn subdir(self) -> (r: Option<&'static str>)
        ensures
            match self {
                ReportDir::Root => r is None,
                ReportDir::OldWallet => r matches Some(d) && d@ == "old_wallet"@,
                ReportDir::NewWallet => r matches Some(d) && d@ == "new_wallet"@,
                ReportDir::Pool => r matches Some(d) && d@ == "pool"@,
            },
    {
        match self {
            ReportDir::Root => None,
            ReportDir::OldWallet => Some("old_wallet"),
            ReportDir::NewWallet => Some("new_wallet"),
            ReportDir::Pool => Some("pool"),
        }
    }
}

/// A step of a command.
#[derive(Clone, Copy, Debug, PartialEq, Eq, Structural)]
pub enum Step {
    /// Create the wallets and wait for their funding.
    Setup,
    /// Load or generate the address pool.
    OpenPool,
    /// Start a wallet on fresh data, and measure its scan.
    StartFresh { wallet: WalletKind },
    /// Use a wallet as it is.
    Open { wallet: WalletKind },
    /// Sample the system in the background.
    StartMonitor { wallet: WalletKind },
    StopMonitor { wallet: WalletKind },
    /// Sync, note the balance, and ask for the address.
    CheckIn { wallet: WalletKind },
    /// Send a warm-up transaction.
    WarmUp { wallet: WalletKind },
    /// Sync, and note the balance.
    NoteBalance { wallet: WalletKind },
    RunScenario { wallet: WalletKind, scenario: ScenarioName, batch_size: usize },
    /// Wait for a stable balance and verify it.
    Checkpoint { wallet: WalletKind },
    /// Verify the balance at the end.
    FinalCheck { wallet: WalletKind },
    WriteReports { dir: ReportDir },
    PrintComparison,
    /// Sync, and print the balance.
    SyncAndPrint { wallet: WalletKind },
    Consolidate { wallet: WalletKind },
    /// Drain the address pool to the new wallet.
    Drain,
    /// End a wallet.
    Stop { wallet: WalletKind },
}

/// All scenarios on a wallet, each followed by a checkpoint, and the final
/// check.
pub open spec fn scenario_steps(wallet: WalletKind, batch_size: usize) -> Seq<Step> {
    Seq::new(
        2 * scenario_order().len(),
        |i: int|
            if i % 2 == 0 {
                Step::RunScenario { wallet, scenario: scenario_order()[i / 2], batch_size }
            } else {
                Step::Checkpoint { wallet }
            },
    ).push(Step::FinalCheck { wallet })
}

/// What is done with a wallet before its first scenario: its balance is noted,
/// and it may be warmed up after that.
pub open spec fn opening_steps(wallet: WalletKind, warms_up: bool) -> Seq<Step> {
    if warms_up {
        seq![Step::CheckIn { wallet }, Step::WarmUp { wallet }]
    } else {
        seq![Step::NoteBalance { wallet }]
    }
}

/// All scenarios on one wallet, on fresh data and with a monitor.
pub open spec fn wallet_steps(
    wallet: WalletKind,
    warms_up: bool,
    batch_size: usize,
    dir: ReportDir,
) -> Seq<Step> {
    seq![Step::StartFresh { wallet }, Step::StartMonitor { wallet }] + opening_steps(
        wallet,
        warms_up,
    ) + scenario_steps(wallet, batch_size) + seq![
        Step::StopMonitor { wallet },
        Step::WriteReports { dir },
        Step::PrintComparison,
        Step::Stop { wallet },
    ]
}

/// The steps of a command.
pub open spec fn command_steps(command: Command) -> Seq<Step> {
    match command {
        Command::Setup { .. } => seq![Step::Setup],
        Command::RunAll { .. } => seq![Step::OpenPool] + wallet_steps(
            WalletKind::Old,
            true,
            1,
            ReportDir::OldWallet,
        ) + wallet_steps(
            WalletKind::New,
            true,
            1,
            ReportDir::NewWallet,
        ) + seq![Step::WriteReports { dir: ReportDir::Root }, Step::PrintComparison],
        Command::RunOld { .. } => seq![Step::OpenPool] + wallet_steps(
            WalletKind::Old,
            false,
            1,
            ReportDir::Root,
        ),
        Command::RunNew { .. } => seq![Step::OpenPool] + wallet_steps(
            WalletKind::New,
            false,
            1,
            ReportDir::Root,
        ),
        Command::RunPool { .. } => seq![Step::OpenPool] + wallet_steps(
            WalletKind::New,
            false,
            POOL_BATCH_SIZE,
            ReportDir::Pool,
        ),
        Command::Run { scenario, .. } => seq![
            Step::OpenPool,
            Step::StartFresh { wallet: WalletKind::Old },
            Step::RunScenario { wallet: WalletKind::Old, scenario, batch_size: 1 },
            Step::Stop { wallet: WalletKind::Old },
            Step::StartFresh { wallet: WalletKind::New },
            Step::RunScenario { wallet: WalletKind::New, scenario, batch_size: 1 },
            Step::Stop { wallet: WalletKind::New },
            Step::WriteReports { dir: ReportDir::Root },
            Step::PrintComparison,
        ],
        Command::Baseline { .. } => seq![
            Step::OpenPool,
            Step::StartFresh { wallet: WalletKind::Old },
            Step::StartFresh { wallet: WalletKind::New },
            Step::CheckIn { wallet: WalletKind::Old },
            Step::CheckIn { wallet: WalletKind::New },
            Step::WarmUp { wallet: WalletKind::Old },
            Step::WarmUp { wallet: WalletKind::New },
            Step::Stop { wallet: WalletKind::Old },
            Step::Stop { wallet: WalletKind::New },
        ],
        Command::Consolidate { .. } => seq![
            Step::Open { wallet: WalletKind::Old },
            Step::Open { wallet: WalletKind::New },
            Step::Consolidate { wallet: WalletKind::Old },
            Step::Consolidate { wallet: WalletKind::New },
            Step::Stop { wallet: WalletKind::Old },
            Step::Stop { wallet: WalletKind::New },
        ],
        Command::Sync { .. } => seq![
            Step::Open { wallet: WalletKind::New },
            Step::SyncAndPrint { wallet: WalletKind::New },
            Step::Stop { wallet: WalletKind::New },
        ],
        Command::Drain { .. } => seq![Step::Drain],
    }
}

/// Appends all scenarios on a wallet.
fn push_scenarios(steps: &mut Vec<Step>, wallet: WalletKind, batch_size: usize)
    ensures
        final(steps)@ == old(steps)@ + scenario_steps(wallet, batch_size),
{
    let ghost before = steps@;
    let ghost all = scenario_steps(wallet, batch_size);
    let scenarios = all_scenarios();
    let mut i: usize = 0;
    assert(before + all.take(0) =~= before);
    while i < scenarios.len()
        invariant
            i <= scenarios.len(),
            scenarios@ == scenario_order(),
            all == scenario_steps(wallet, batch_size),
            steps@ == before + all.take(2 * i),
        decreases scenarios.len() - i,
    {
        steps.push(Step::RunScenario { wallet, scenario: scenarios[i], batch_size });
        steps.push(Step::Checkpoint { wallet });
        assert(all[2 * i] == (Step::RunScenario {
            wallet,
            scenario: scenario_order()[i as int],
            batch_size,
        }));
        assert(all[2 * i + 1] == (Step::Checkpoint { wallet }));
        assert(steps@ =~= before + all.take(2 * (i + 1)));
        i = i + 1;
    }
    steps.push(Step::FinalCheck { wallet });
    assert(steps@ =~= before + all);
}

/// Appends a whole run of one wallet.
fn push_wallet(
    steps: &mut Vec<Step>,
    wallet: WalletKind,
    warms_up: bool,
    batch_size: usize,
    dir: ReportDir,
)
    ensures
        final(steps)@ == old(steps)@ + wallet_steps(wallet, warms_up, batch_size, dir),
{
    let ghost before = steps@;
    steps.push(Step::StartFresh { wallet });
    steps.push(Step::StartMonitor { wallet });
    if warms_up {
        steps.push(Step::CheckIn { wallet });
        steps.push(Step::WarmUp { wallet });
    } else {
        steps.push(Step::NoteBalance { wallet });
    }
    push_scenarios(steps, wallet, batch_size);
    steps.push(Step::StopMonitor { wallet });
    steps.push(Step::WriteReports { dir });
    steps.push(Step::PrintComparison);
    steps.push(Step::Stop { wallet });
    assert(steps@ =~= before + wallet_steps(wallet, warms_up, batch_size, dir));
}

/// The steps of a command, in order.
pub fn plan_command(command: &Command) -> (r: Vec<Step>)
    ensures
        r@ == command_steps(*command),
{
    let mut steps: Vec<Step> = Vec::new();
    match command {
        Command::Setup { .. } => {
            steps.push(Step::Setup);
        },
        Command::RunAll { .. } => {
            steps.push(Step::OpenPool);
            push_wallet(
                &mut steps,
                WalletKind::Old,
                true,
                1,
                ReportDir::OldWallet,
            );
            push_wallet(
                &mut steps,
                WalletKind::New,
                true,
                1,
                ReportDir::NewWallet,
            );
            steps.push(Step::WriteReports { dir: ReportDir::Root });
            steps.push(Step::PrintComparison);
        },
        Command::RunOld { .. } => {
            steps.push(Step::OpenPool);
            push_wallet(
                &mut steps,
                WalletKind::Old,
                false,
                1,
                ReportDir::Root,
            );
        },
        Command::RunNew { .. } => {
            steps.push(Step::OpenPool);
            push_wallet(
                &mut steps,
                WalletKind::New,
                false,
                1,
                ReportDir::Root,
            );
        },
        Command::RunPool { .. } => {
            steps.push(Step::OpenPool);
            push_wallet(
                &mut steps,
                WalletKind::New,
                false,
                POOL_BATCH_SIZE,
                ReportDir::Pool,
            );
        },
        Command::Run { scenario, .. } => {
            steps.push(Step::OpenPool);
            steps.push(Step::StartFresh { wallet: WalletKind::Old });
            steps.push(
                Step::RunScenario {
                    wallet: WalletKind::Old,
                    scenario: *scenario,
                    batch_size: 1,
                },
            );
            steps.push(Step::Stop { wallet: WalletKind::Old });
            steps.push(Step::StartFresh { wallet: WalletKind::New });
            steps.push(
                Step::RunScenario {
                    wallet: WalletKind::New,
                    scenario: *scenario,
                    batch_size: 1,
                },
            );
            steps.push(Step::Stop { wallet: WalletKind::New });
            steps.push(Step::WriteReports { dir: ReportDir::Root });
            steps.push(Step::PrintComparison);
        },
        Command::Baseline { .. } => {
            steps.push(Step::OpenPool);
            steps.push(Step::StartFresh { wallet: WalletKind::Old });
            steps.push(Step::StartFresh { wallet: WalletKind::New });
            steps.push(Step::CheckIn { wallet: WalletKind::Old });
            steps.push(Step::CheckIn { wallet: WalletKind::New });
            steps.push(Step::WarmUp { wallet: WalletKind::Old });
            steps.push(Step::WarmUp { wallet: WalletKind::New });
            steps.push(Step::Stop { wallet: WalletKind::Old });
            steps.push(Step::Stop { wallet: WalletKind::New });
        },
        Command::Consolidate { .. } => {
            steps.push(Step::Open { wallet: WalletKind::Old });
            steps.push(Step::Open { wallet: WalletKind::New });
            steps.push(Step::Consolidate { wallet: WalletKind::Old });
            steps.push(Step::Consolidate { wallet: WalletKind::New });
            steps.push(Step::Stop { wallet: WalletKind::Old });
            steps.push(Step::Stop { wallet: WalletKind::New });
        },
        Command::Sync { .. } => {
            steps.push(Step::Open { wallet: WalletKind::New });
            steps.push(Step::SyncAndPrint { wallet: WalletKind::New });
            steps.push(Step::Stop { wallet: WalletKind::New });
        },
        Command::Drain { .. } => {
            steps.push(Step::Drain);
        },
    }
    assert(steps@ =~= command_steps(*command));
    steps
}

/// The wallet that a step concerns, if any.
pub open spec fn wallet_of(step: Step) -> Option<WalletKind> {
    match step {
        Step::StartFresh { wallet } => Some(wallet),
        Step::Open { wallet } => Some(wallet),
        Step::StartMonitor { wallet } => Some(wallet),
        Step::StopMonitor { wallet } => Some(wallet),
        Step::CheckIn { wallet } => Some(wallet),
        Step::WarmUp { wallet } => Some(wallet),
        Step::NoteBalance { wallet } => Some(wallet),
        Step::RunScenario { wallet, .. } => Some(wallet),
        Step::Checkpoint { wallet } => Some(wallet),
        Step::FinalCheck { wallet } => Some(wallet),
        Step::SyncAndPrint { wallet } => Some(wallet),
        Step::Consolidate { wallet } => Some(wallet),
        Step::Stop { wallet } => Some(wallet),
        _ => None,
    }
}

/// The run of one wallet concerns no other wallet, each of its scenarios is
/// followed by a checkpoint, a warm-up comes right after the balance is noted,
/// and the run begins with fresh data and ends with the wallet stopped.
pub proof fn law_wallet_run(
    wallet: WalletKind,
    warms_up: bool,
    batch_size: usize,
    dir: ReportDir,
    i: int,
)
    requires
        0 <= i < wallet_steps(wallet, warms_up, batch_size, dir).len(),
    ensures
        ({
            let steps = wallet_steps(wallet, warms_up, batch_size, dir);
            &&& wallet_of(steps[i]) is None || wallet_of(steps[i]) == Some(wallet)
            &&& steps[0] == (Step::StartFresh { wallet })
            &&& steps.last() == (Step::Stop { wallet })
            &&& steps[i] is RunScenario ==> i + 1 < steps.len() && steps[i + 1] == (
            Step::Checkpoint { wallet })
            &&& steps[i] is WarmUp ==> i > 0 && steps[i - 1] == (Step::CheckIn { wallet })
        }),
{
    let head = seq![Step::StartFresh { wallet }, Step::StartMonitor { wallet }] + opening_steps(
        wallet,
        warms_up,
    );
    let middle = scenario_steps(wallet, batch_size);
    let tail = seq![
        Step::StopMonitor { wallet },
        Step::WriteReports { dir },
        Step::PrintComparison,
        Step::Stop { wallet },
    ];
    let steps = wallet_steps(wallet, warms_up, batch_size, dir);
    let h = head.len() as int;
    let m = middle.len() as int;
    assert(steps == head + middle + tail);
    assert(m == 11);
    if i < h {
        assert(steps[i] == head[i]);
        if i > 0 {
            assert(steps[i - 1] == head[i - 1]);
        }
    } else if i < h + m {
        assert(steps[i] == middle[i - h]);
        if i < h + m - 1 {
            assert(steps[i + 1] == middle[i - h + 1]);
        }
    } else {
        assert(steps[i] == tail[i - h - m]);
    }
}

/// The baseline notes the balances of both wallets before it warms up either of
/// them, so a wallet that fails stops it before any funds move; it notes each
/// balance once and warms up each wallet once, the old one first.
pub proof fn law_baseline_notes_before_it_sends(
    wallet_config: WalletConfig,
    wallet: WalletKind,
    i: int,
    j: int,
)
    requires
        0 <= i < command_steps(Command::Baseline { wallet_config }).len(),
        0 <= j < command_steps(Command::Baseline { wallet_config }).len(),
    ensures
        ({
            let steps = command_steps(Command::Baseline { wallet_config });
            &&& steps[i] is CheckIn && steps[j] is WarmUp ==> i < j
            &&& steps[i] is StartFresh && steps[j] is WarmUp ==> i < j
            &&& steps.contains(Step::CheckIn { wallet })
            &&& steps.contains(Step::WarmUp { wallet })
            &&& steps[i] == (Step::CheckIn { wallet }) && steps[j] == steps[i] ==> i == j
            &&& steps[i] == (Step::WarmUp { wallet }) && steps[j] == steps[i] ==> i == j
            &&& steps[i] == (Step::WarmUp { wallet: WalletKind::Old }) && steps[j] == (
            Step::WarmUp { wallet: WalletKind::New }) ==> i < j
        }),
{
    let steps = command_steps(Command::Baseline { wallet_config });
    match wallet {
        WalletKind::Old => {
            assert(steps[3] == (Step::CheckIn { wallet }));
            assert(steps[5] == (Step::WarmUp { wallet }));
        },
        WalletKind::New => {
            assert(steps[4] == (Step::CheckIn { wallet }));
            assert(steps[6] == (Step::WarmUp { wallet }));
        },
    }
}

// ---------------------------------------------------------------------------
// What the plans of the commands amount to
// ---------------------------------------------------------------------------

/// Consolidation sweeps each wallet exactly once, after it is opened and before
/// it is stopped, and does nothing else with either.
pub proof fn law_each_wallet_is_consolidated_once(
    command: Command,
    steps: Vec<Step>,
    wallet: WalletKind,
    i: int,
    j: int,
)
    requires
        command is Consolidate,
        call_ensures(plan_command, (&command,), steps),
        0 <= i < steps.len(),
        0 <= j < steps.len(),
    ensures
        steps@.contains(Step::Open { wallet }),
        steps@.contains(Step::Consolidate { wallet }),
        steps@.contains(Step::Stop { wallet }),
        steps@[i] == steps@[j] ==> i == j,
        steps@[i] == (Step::Open { wallet }) && steps@[j] == (Step::Consolidate { wallet }) ==> i
            < j,
        steps@[i] == (Step::Consolidate { wallet }) && steps@[j] == (Step::Stop { wallet }) ==> i
            < j,
        steps@[i] is Open || steps@[i] is Consolidate || steps@[i] is Stop,
{
    let s = steps@;
    match wallet {
        WalletKind::Old => {
            assert(s[0] == (Step::Open { wallet }));
            assert(s[2] == (Step::Consolidate { wallet }));
            assert(s[4] == (Step::Stop { wallet }));
        },
        WalletKind::New => {
            assert(s[1] == (Step::Open { wallet }));
            assert(s[3] == (Step::Consolidate { wallet }));
            assert(s[5] == (Step::Stop { wallet }));
        },
    }
}

/// A run of one scenario takes each wallet in turn, the old one first: it
/// starts the wallet on fresh data, runs that scenario on it once, with single
/// sends, and stops it, before it goes on to the other. The pool is opened
/// before, and the report and the comparison come after.
pub proof fn law_one_scenario_is_run_on_each_wallet(
    command: Command,
    steps: Vec<Step>,
    wallet: WalletKind,
    i: int,
    j: int,
)
    requires
        command is Run,
        call_ensures(plan_command, (&command,), steps),
        0 <= i < steps.len(),
        0 <= j < steps.len(),
    ensures
        ({
            let run = Step::RunScenario { wallet, scenario: command->scenario, batch_size: 1 };
            &&& steps@.contains(Step::StartFresh { wallet })
            &&& steps@.contains(run)
            &&& steps@.contains(Step::Stop { wallet })
            &&& steps@[i] == (Step::StartFresh { wallet }) && steps@[j] == run ==> i < j
            &&& steps@[i] == run && steps@[j] == (Step::Stop { wallet }) ==> i < j
        }),
        steps@[i] is RunScenario ==> steps@[i]->scenario == command->scenario
            && steps@[i]->batch_size == 1,
        steps@[i] == steps@[j] ==> i == j,
        wallet_of(steps@[i]) == Some(WalletKind::Old) && wallet_of(steps@[j]) == Some(
            WalletKind::New,
        ) ==> i < j,
        steps@[i] == Step::OpenPool <==> i == 0,
        steps@.contains(Step::WriteReports { dir: ReportDir::Root }),
        steps@.contains(Step::PrintComparison),
        steps@[i] is Stop && steps@[j] is WriteReports ==> i < j,
        steps@[i] is WriteReports && steps@[j] is PrintComparison ==> i < j,
        steps@[i] is OpenPool || steps@[i] is StartFresh || steps@[i] is RunScenario
            || steps@[i] is Stop || steps@[i] == (Step::WriteReports { dir: ReportDir::Root })
            || steps@[i] is PrintComparison,
{
    let s = steps@;
    let scenario = command->scenario;
    assert(s[7] == (Step::WriteReports { dir: ReportDir::Root }));
    assert(s[8] == Step::PrintComparison);
    match wallet {
        WalletKind::Old => {
            assert(s[1] == (Step::StartFresh { wallet }));
            assert(s[2] == (Step::RunScenario { wallet, scenario, batch_size: 1 }));
            assert(s[3] == (Step::Stop { wallet }));
        },
        WalletKind::New => {
            assert(s[4] == (Step::StartFresh { wallet }));
            assert(s[5] == (Step::RunScenario { wallet, scenario, batch_size: 1 }));
            assert(s[6] == (Step::Stop { wallet }));
        },
    }
}

/// The baseline starts both wallets on fresh data, checks both in, warms up
/// each with one send, and stops both. The pool is opened first. It runs no
/// scenario.
pub proof fn law_baseline_is_whole(
    command: Command,
    steps: Vec<Step>,
    wallet: WalletKind,
    i: int,
    j: int,
)
    requires
        command is Baseline,
        call_ensures(plan_command, (&command,), steps),
        0 <= i < steps.len(),
        0 <= j < steps.len(),
    ensures
        steps@[i] == Step::OpenPool <==> i == 0,
        steps@.contains(Step::StartFresh { wallet }),
        steps@.contains(Step::CheckIn { wallet }),
        steps@.contains(Step::WarmUp { wallet }),
        steps@.contains(Step::Stop { wallet }),
        steps@[i] == steps@[j] ==> i == j,
        steps@[i] is StartFresh && steps@[j] is CheckIn ==> i < j,
        steps@[i] is CheckIn && steps@[j] is WarmUp ==> i < j,
        steps@[i] is WarmUp && steps@[j] is Stop ==> i < j,
        steps@[i] is OpenPool || steps@[i] is StartFresh || steps@[i] is CheckIn
            || steps@[i] is WarmUp || steps@[i] is Stop,
{
    let s = steps@;
    match wallet {
        WalletKind::Old => {
            assert(s[1] == (Step::StartFresh { wallet }));
            assert(s[3] == (Step::CheckIn { wallet }));
            assert(s[5] == (Step::WarmUp { wallet }));
            assert(s[7] == (Step::Stop { wallet }));
        },
        WalletKind::New => {
            assert(s[2] == (Step::StartFresh { wallet }));
            assert(s[4] == (Step::CheckIn { wallet }));
            assert(s[6] == (Step::WarmUp { wallet }));
            assert(s[8] == (Step::Stop { wallet }));
        },
    }
}

/// A sync opens the new wallet as it is, syncs it and stops it. A setup and a
/// drain are one step each.
pub proof fn law_short_commands(command: Command, steps: Vec<Step>, i: int, j: int)
    requires
        command is Sync || command is Setup || command is Drain,
        call_ensures(plan_command, (&command,), steps),
        0 <= i < steps.len(),
        0 <= j < steps.len(),
    ensures
        steps@[i] == steps@[j] ==> i == j,
        command is Setup ==> steps.len() == 1 && steps@[i] == Step::Setup,
        command is Drain ==> steps.len() == 1 && steps@[i] == Step::Drain,
        command is Sync ==> {
            let wallet = WalletKind::New;
            &&& steps.len() == 3
            &&& steps@.contains(Step::Open { wallet })
            &&& steps@.contains(Step::SyncAndPrint { wallet })
            &&& steps@.contains(Step::Stop { wallet })
            &&& steps@[i] is Open && steps@[j] is SyncAndPrint ==> i < j
            &&& steps@[i] is SyncAndPrint && steps@[j] is Stop ==> i < j
        },
{
    if command is Sync {
        let wallet = WalletKind::New;
        assert(steps@[0] == (Step::Open { wallet }));
        assert(steps@[1] == (Step::SyncAndPrint { wallet }));
        assert(steps@[2] == (Step::Stop { wallet }));
    }
}

/// The place of a scenario in a run of all of them.
pub open spec fn place_of(scenario: ScenarioName) -> int {
    match scenario {
        ScenarioName::PoolPayout => 0,
        ScenarioName::InboundFlood => 1,
        ScenarioName::Bidirectional => 2,
        ScenarioName::Fragmentation => 3,
        ScenarioName::LockContention => 4,
    }
}

/// How far a wallet's run has come at a step. Every scenario is followed by its
/// checkpoint.
pub open spec fn progress_of(step: Step) -> int {
    match step {
        Step::OpenPool => 0,
        Step::StartFresh { .. } => 1,
        Step::StartMonitor { .. } => 2,
        Step::NoteBalance { .. } => 3,
        Step::CheckIn { .. } => 3,
        Step::WarmUp { .. } => 4,
        Step::RunScenario { scenario, .. } => 5 + place_of(scenario),
        Step::FinalCheck { .. } => 10,
        Step::StopMonitor { .. } => 11,
        Step::WriteReports { .. } => 12,
        Step::PrintComparison => 13,
        Step::Stop { .. } => 14,
        _ => 15,
    }
}

/// The step at a place of a wallet's run.
spec fn wallet_step_at(
    wallet: WalletKind,
    warms_up: bool,
    batch_size: usize,
    dir: ReportDir,
    at: int,
) -> Step {
    let k = if warms_up {
        at
    } else if at > 2 {
        at + 1
    } else {
        at
    };
    if k == 0 {
        Step::StartFresh { wallet }
    } else if k == 1 {
        Step::StartMonitor { wallet }
    } else if k == 2 {
        if warms_up {
            Step::CheckIn { wallet }
        } else {
            Step::NoteBalance { wallet }
        }
    } else if k == 3 {
        Step::WarmUp { wallet }
    } else if k == 4 {
        Step::RunScenario { wallet, scenario: ScenarioName::PoolPayout, batch_size }
    } else if k == 6 {
        Step::RunScenario { wallet, scenario: ScenarioName::InboundFlood, batch_size }
    } else if k == 8 {
        Step::RunScenario { wallet, scenario: ScenarioName::Bidirectional, batch_size }
    } else if k == 10 {
        Step::RunScenario { wallet, scenario: ScenarioName::Fragmentation, batch_size }
    } else if k == 12 {
        Step::RunScenario { wallet, scenario: ScenarioName::LockContention, batch_size }
    } else if k == 5 || k == 7 || k == 9 || k == 11 || k == 13 {
        Step::Checkpoint { wallet }
    } else if k == 14 {
        Step::FinalCheck { wallet }
    } else if k == 15 {
        Step::StopMonitor { wallet }
    } else if k == 16 {
        Step::WriteReports { dir }
    } else if k == 17 {
        Step::PrintComparison
    } else {
        Step::Stop { wallet }
    }
}

/// How many steps a wallet's run has.
spec fn wallet_run_len(warms_up: bool) -> int {
    if warms_up {
        19
    } else {
        18
    }
}

proof fn lemma_wallet_steps_at(
    wallet: WalletKind,
    warms_up: bool,
    batch_size: usize,
    dir: ReportDir,
)
    ensures
        wallet_steps(wallet, warms_up, batch_size, dir).len() == wallet_run_len(warms_up),
        forall|i: int|
            0 <= i < wallet_run_len(warms_up) ==> #[trigger] wallet_steps(
                wallet,
                warms_up,
                batch_size,
                dir,
            )[i] == wallet_step_at(wallet, warms_up, batch_size, dir, i),
{
    let head = seq![Step::StartFresh { wallet }, Step::StartMonitor { wallet }] + opening_steps(
        wallet,
        warms_up,
    );
    let middle = scenario_steps(wallet, batch_size);
    let tail = seq![
        Step::StopMonitor { wallet },
        Step::WriteReports { dir },
        Step::PrintComparison,
        Step::Stop { wallet },
    ];
    let steps = wallet_steps(wallet, warms_up, batch_size, dir);
    let h = head.len() as int;
    assert(steps == head + middle + tail);
    assert(middle.len() == 11);
    let order = scenario_order();
    assert(order.len() == 5);
    assert forall|i: int| 0 <= i < wallet_run_len(warms_up) implies #[trigger] steps[i]
        == wallet_step_at(wallet, warms_up, batch_size, dir, i) by {
        if i < h {
            assert(steps[i] == head[i]);
        } else if i < h + 11 {
            let k = i - h;
            assert(steps[i] == middle[k]);
            assert(k == 0 || k == 1 || k == 2 || k == 3 || k == 4 || k == 5 || k == 6 || k == 7
                || k == 8 || k == 9 || k == 10);
        } else {
            assert(steps[i] == tail[i - h - 11]);
        }
    }
}

/// What a run of all scenarios on one wallet comes to: see
/// `law_all_scenarios_are_run_on_a_wallet`, with the places counted from the
/// run's own beginning.
proof fn lemma_wallet_run_is_whole(
    wallet: WalletKind,
    warms_up: bool,
    batch_size: usize,
    dir: ReportDir,
    scenario: ScenarioName,
    i: int,
    j: int,
)
    requires
        0 <= i < wallet_run_len(warms_up),
        0 <= j < wallet_run_len(warms_up),
    ensures
        ({
            let a = wallet_step_at(wallet, warms_up, batch_size, dir, i);
            let b = wallet_step_at(wallet, warms_up, batch_size, dir, j);
            let run = wallet_steps(wallet, warms_up, batch_size, dir);
            &&& run.contains(Step::StartFresh { wallet })
            &&& run.contains(Step::StartMonitor { wallet })
            &&& run.contains(Step::RunScenario { wallet, scenario, batch_size })
            &&& run.contains(Step::FinalCheck { wallet })
            &&& run.contains(Step::StopMonitor { wallet })
            &&& run.contains(Step::WriteReports { dir })
            &&& run.contains(Step::PrintComparison)
            &&& run.contains(Step::Stop { wallet })
            &&& warms_up ==> run.contains(Step::CheckIn { wallet }) && run.contains(
                Step::WarmUp { wallet },
            )
            &&& !warms_up ==> run.contains(Step::NoteBalance { wallet })
            &&& a == b && i != j ==> a is Checkpoint
            &&& !(a is Checkpoint) && !(b is Checkpoint) && progress_of(a) < progress_of(b) ==> i
                < j
            &&& !(a is Checkpoint) ==> 1 <= progress_of(a) <= 14
            &&& a is RunScenario ==> a->batch_size == batch_size && i + 1 < wallet_run_len(
                warms_up,
            ) && wallet_step_at(wallet, warms_up, batch_size, dir, i + 1) == (Step::Checkpoint {
                wallet,
            })
            &&& a is Checkpoint ==> i > 0 && wallet_step_at(
                wallet,
                warms_up,
                batch_size,
                dir,
                i - 1,
            ) is RunScenario
            &&& a is WriteReports ==> a == (Step::WriteReports { dir })
            &&& a is WarmUp || a is CheckIn ==> warms_up
            &&& a is NoteBalance ==> !warms_up
            &&& wallet_of(a) is Some ==> wallet_of(a) == Some(wallet)
            &&& wallet_of(a) is None ==> a is WriteReports || a is PrintComparison
        }),
{
    lemma_wallet_steps_at(wallet, warms_up, batch_size, dir);
    let run = wallet_steps(wallet, warms_up, batch_size, dir);
    let o: int = if warms_up {
        1
    } else {
        0
    };
    assert(run[0] == (Step::StartFresh { wallet }));
    assert(run[1] == (Step::StartMonitor { wallet }));
    assert(run[2] == if warms_up {
        Step::CheckIn { wallet }
    } else {
        Step::NoteBalance { wallet }
    });
    assert(warms_up ==> run[3] == (Step::WarmUp { wallet }));
    assert(run[3 + o + 2 * place_of(scenario)] == (Step::RunScenario {
        wallet,
        scenario,
        batch_size,
    }));
    assert(run[13 + o] == (Step::FinalCheck { wallet }));
    assert(run[14 + o] == (Step::StopMonitor { wallet }));
    assert(run[15 + o] == (Step::WriteReports { dir }));
    assert(run[16 + o] == Step::PrintComparison);
    assert(run[17 + o] == (Step::Stop { wallet }));
}

/// A command that runs all scenarios on one wallet opens the pool first, starts
/// that wallet on fresh data with a monitor, notes its balance, and runs every
/// scenario once, in order, each followed by a checkpoint. After the final
/// check it stops the monitor, writes the reports, prints the comparison and
/// stops the wallet. It does nothing else, sends one by one except for the pool
/// mode, which sends to 50 recipients at once, and does nothing with the other
/// wallet.
pub proof fn law_all_scenarios_are_run_on_a_wallet(
    command: Command,
    steps: Vec<Step>,
    scenario: ScenarioName,
    i: int,
    j: int,
)
    requires
        command is RunOld || command is RunNew || command is RunPool,
        call_ensures(plan_command, (&command,), steps),
        0 <= i < steps.len(),
        0 <= j < steps.len(),
    ensures
        ({
            let wallet = if command is RunOld {
                WalletKind::Old
            } else {
                WalletKind::New
            };
            let batch_size: usize = if command is RunPool {
                50
            } else {
                1
            };
            let dir = if command is RunPool {
                ReportDir::Pool
            } else {
                ReportDir::Root
            };
            let a = steps@[i];
            let b = steps@[j];
            &&& steps@[0] == Step::OpenPool
            &&& steps@.contains(Step::StartFresh { wallet })
            &&& steps@.contains(Step::StartMonitor { wallet })
            &&& steps@.contains(Step::NoteBalance { wallet })
            &&& steps@.contains(Step::RunScenario { wallet, scenario, batch_size })
            &&& steps@.contains(Step::FinalCheck { wallet })
            &&& steps@.contains(Step::StopMonitor { wallet })
            &&& steps@.contains(Step::WriteReports { dir })
            &&& steps@.contains(Step::PrintComparison)
            &&& steps@.contains(Step::Stop { wallet })
            &&& a == b && i != j ==> a is Checkpoint
            &&& !(a is Checkpoint) && !(b is Checkpoint) && progress_of(a) < progress_of(b) ==> i
                < j
            &&& a is RunScenario ==> i + 1 < steps.len() && steps@[i + 1] == (Step::Checkpoint {
                wallet,
            })
            &&& a is RunScenario ==> a->batch_size == batch_size
            &&& a is Checkpoint ==> i > 0 && steps@[i - 1] is RunScenario
            &&& a is WriteReports ==> a == (Step::WriteReports { dir })
            &&& !(a is Checkpoint) ==> progress_of(a) <= 14
            &&& !(a is WarmUp) && !(a is CheckIn)
            &&& wallet_of(a) is Some ==> wallet_of(a) == Some(wallet)
        }),
{
    let wallet = if command is RunOld {
        WalletKind::Old
    } else {
        WalletKind::New
    };
    let batch_size: usize = if command is RunPool {
        50
    } else {
        1
    };
    let dir = if command is RunPool {
        ReportDir::Pool
    } else {
        ReportDir::Root
    };
    let run = wallet_steps(wallet, false, batch_size, dir);
    assert(steps@ == seq![Step::OpenPool] + run);
    lemma_wallet_steps_at(wallet, false, batch_size, dir);
    lemma_wallet_run_is_whole(
        wallet,
        false,
        batch_size,
        dir,
        scenario,
        if i > 0 {
            i - 1
        } else {
            0
        },
        if j > 0 {
            j - 1
        } else {
            0
        },
    );
    assert(forall|k: int| 0 <= k < run.len() ==> steps@[k + 1] == #[trigger] run[k]);
    assert forall|step: Step| run.contains(step) implies steps@.contains(step) by {
        let k = choose|k: int| 0 <= k < run.len() && run[k] == step;
        assert(steps@[k + 1] == step);
    }
    if i > 0 {
        assert(steps@[i] == run[i - 1]);
    }
    if j > 0 {
        assert(steps@[j] == run[j - 1]);
    }
    if steps@[i] is RunScenario {
        assert(steps@[i + 1] == run[i]);
    }
    if steps@[i] is Checkpoint {
        assert(steps@[i - 1] == run[i - 2]);
    }
}

/// A run of everything opens the pool and takes each wallet through all
/// scenarios, the old one to its end before the new one begins. Each wallet is
/// started on fresh data with a monitor, checked in and warmed up; every
/// scenario is run once on it, in order and with single sends, each followed by
/// a checkpoint; after the final check the monitor is stopped, the wallet's own
/// report is written, and the wallet is stopped. The combined report and its
/// comparison come last.
pub proof fn law_all_scenarios_are_run_on_both_wallets(
    command: Command,
    steps: Vec<Step>,
    wallet: WalletKind,
    scenario: ScenarioName,
    i: int,
    j: int,
)
    requires
        command is RunAll,
        call_ensures(plan_command, (&command,), steps),
        0 <= i < steps.len(),
        0 <= j < steps.len(),
    ensures
        ({
            let dir = match wallet {
                WalletKind::Old => ReportDir::OldWallet,
                WalletKind::New => ReportDir::NewWallet,
            };
            let a = steps@[i];
            let b = steps@[j];
            &&& a == Step::OpenPool <==> i == 0
            &&& steps@.contains(Step::StartFresh { wallet })
            &&& steps@.contains(Step::StartMonitor { wallet })
            &&& steps@.contains(Step::CheckIn { wallet })
            &&& steps@.contains(Step::WarmUp { wallet })
            &&& steps@.contains(Step::RunScenario { wallet, scenario, batch_size: 1 })
            &&& steps@.contains(Step::FinalCheck { wallet })
            &&& steps@.contains(Step::StopMonitor { wallet })
            &&& steps@.contains(Step::WriteReports { dir })
            &&& steps@.contains(Step::Stop { wallet })
            &&& steps@.contains(Step::WriteReports { dir: ReportDir::Root })
            &&& steps@.last() == Step::PrintComparison
            &&& a == b && i != j ==> a is Checkpoint || a is PrintComparison
            &&& wallet_of(a) == Some(wallet) && wallet_of(b) == Some(wallet) && !(
            a is Checkpoint) && !(b is Checkpoint) && progress_of(a) < progress_of(b) ==> i < j
            &&& wallet_of(a) == Some(WalletKind::Old) && wallet_of(b) == Some(WalletKind::New)
                ==> i < j
            &&& a is RunScenario ==> i + 1 < steps.len() && steps@[i + 1] is Checkpoint
                && wallet_of(steps@[i + 1]) == wallet_of(a)
            &&& a is RunScenario ==> a->batch_size == 1
            &&& a is Checkpoint ==> i > 0 && steps@[i - 1] is RunScenario
            &&& a == (Step::StopMonitor { wallet }) && b == (Step::WriteReports { dir }) ==> i < j
            &&& a == (Step::WriteReports { dir }) && b == (Step::Stop { wallet }) ==> i < j
            &&& a is Stop && b == (Step::WriteReports { dir: ReportDir::Root }) ==> i < j
            &&& a is NoteBalance ==> false
            &&& a is WriteReports ==> a->dir != ReportDir::Pool
            &&& !(a is Checkpoint) ==> progress_of(a) <= 14
        }),
{
    let first = wallet_steps(WalletKind::Old, true, 1, ReportDir::OldWallet);
    let second = wallet_steps(WalletKind::New, true, 1, ReportDir::NewWallet);
    let end = seq![Step::WriteReports { dir: ReportDir::Root }, Step::PrintComparison];
    let s = steps@;
    assert(s == seq![Step::OpenPool] + first + second + end);
    lemma_wallet_steps_at(WalletKind::Old, true, 1, ReportDir::OldWallet);
    lemma_wallet_steps_at(WalletKind::New, true, 1, ReportDir::NewWallet);
    assert(forall|k: int| 0 <= k < 19 ==> s[k + 1] == #[trigger] first[k]);
    assert(forall|k: int| 0 <= k < 19 ==> s[k + 20] == #[trigger] second[k]);
    assert(s[39] == end[0]);
    assert(s[40] == end[1]);
    assert forall|step: Step| first.contains(step) || second.contains(step) implies s.contains(
        step,
    ) by {
        if first.contains(step) {
            let k = choose|k: int| 0 <= k < first.len() && first[k] == step;
            assert(s[k + 1] == step);
        } else {
            let k = choose|k: int| 0 <= k < second.len() && second[k] == step;
            assert(s[k + 20] == step);
        }
    }
    let x: int = if 1 <= i < 20 {
        i - 1
    } else if 20 <= i < 39 {
        i - 20
    } else {
        0
    };
    let y: int = if 1 <= j < 20 {
        j - 1
    } else if 20 <= j < 39 {
        j - 20
    } else {
        0
    };
    lemma_wallet_run_is_whole(WalletKind::Old, true, 1, ReportDir::OldWallet, scenario, x, y);
    lemma_wallet_run_is_whole(WalletKind::New, true, 1, ReportDir::NewWallet, scenario, x, y);
    if 1 <= i < 20 {
        assert(s[i] == first[i - 1]);
        if s[i] is RunScenario {
            assert(s[i + 1] == first[i]);
        }
        if s[i] is Checkpoint {
            assert(s[i - 1] == first[i - 2]);
        }
    } else if 20 <= i < 39 {
        assert(s[i] == second[i - 20]);
        if s[i] is RunScenario {
            assert(s[i + 1] == second[i - 19]);
        }
        if s[i] is Checkpoint {
            assert(s[i - 1] == second[i - 21]);
        }
    }
    if 1 <= j < 20 {
        assert(s[j] == first[j - 1]);
    } else if 20 <= j < 39 {
        assert(s[j] == second[j - 20]);
    }
}

/// Each report below the output directory has a directory of its own.
pub proof fn law_reports_have_their_own_directories(dir: ReportDir, r: Option<&'static str>)
    requires
        call_ensures(ReportDir::subdir, (dir,), r),
    ensures
        r is None <==> dir == ReportDir::Root,
        dir == ReportDir::OldWallet ==> r->Some_0@ == "old_wallet"@,
        dir == ReportDir::NewWallet ==> r->Some_0@ == "new_wallet"@,
        dir == ReportDir::Pool ==> r->Some_0@ == "pool"@,
{
}

// ---------------------------------------------------------------------------
// What the other decisions amount to
// ---------------------------------------------------------------------------

/// All five scenarios are run, in this order.
pub proof fn law_scenarios_in_order(r: Vec<ScenarioName>, name: ScenarioName)
    requires
        call_ensures(all_scenarios, (), r),
    ensures
        r.len() == 5,
        r@[place_of(name)] == name,
{
}

/// Each name stands for its own scenario, with its budget: 40,000 tXTM for the
/// payouts, 20,000 for each of the next two and 10,000 for each of the last two.
pub proof fn law_each_name_has_its_scenario(name: ScenarioName, batch_size: usize, r: ScenarioPlan)
    requires
        call_ensures(get_scenario, (name, batch_size), r),
    ensures
        name == ScenarioName::PoolPayout ==> r.name@ == "pool_payout"@ && r.budget == 40_000
            * 1_000_000 && r.phases.len() == 2,
        name == ScenarioName::InboundFlood ==> r.name@ == "inbound_flood"@ && r.budget == 20_000
            * 1_000_000 && r.phases.len() == 2,
        name == ScenarioName::Bidirectional ==> r.name@ == "bidirectional"@ && r.budget == 20_000
            * 1_000_000 && r.phases.len() == 1,
        name == ScenarioName::Fragmentation ==> r.name@ == "fragmentation"@ && r.budget == 10_000
            * 1_000_000 && r.phases.len() == 5,
        name == ScenarioName::LockContention ==> r.name@ == "lock_contention"@ && r.budget
            == 10_000 * 1_000_000 && r.phases.len() == 3,
{
    assert(phase_views(r.phases@).len() == r.phases.len());
}

/// The plan of a scenario has its phases, budget, outputs and split amount.
pub proof fn law_plan_is_that_of_the_scenario(
    batch_size: usize,
    plain: PoolPayoutScenario,
    payout: PoolPayoutScenario,
    payout_plan: ScenarioPlan,
    payout_run: Vec<Phase>,
    payout_utxos: u64,
    payout_amount: u64,
    ramp_plan: ScenarioPlan,
    ramp_run: Vec<Phase>,
    flood_plan: ScenarioPlan,
    flood_run: Vec<Phase>,
    split_plan: ScenarioPlan,
    split_run: Vec<Phase>,
    rapid_plan: ScenarioPlan,
    rapid_run: Vec<Phase>,
)
    requires
        call_ensures(PoolPayoutScenario::new, (), plain),
        call_ensures(PoolPayoutScenario::with_batch_size, (plain, batch_size), payout),
        call_ensures(get_scenario, (ScenarioName::PoolPayout, batch_size), payout_plan),
        call_ensures(PoolPayoutScenario::run, (&payout,), payout_run),
        call_ensures(PoolPayoutScenario::required_utxos, (&payout,), payout_utxos),
        call_ensures(PoolPayoutScenario::split_amount, (&payout,), payout_amount),
        call_ensures(get_scenario, (ScenarioName::Bidirectional, batch_size), ramp_plan),
        call_ensures(BidirectionalScenario::run, (&BidirectionalScenario,), ramp_run),
        call_ensures(get_scenario, (ScenarioName::InboundFlood, batch_size), flood_plan),
        call_ensures(InboundFloodScenario::run, (&InboundFloodScenario,), flood_run),
        call_ensures(get_scenario, (ScenarioName::Fragmentation, batch_size), split_plan),
        call_ensures(FragmentationScenario::run, (&FragmentationScenario,), split_run),
        call_ensures(get_scenario, (ScenarioName::LockContention, batch_size), rapid_plan),
        call_ensures(LockContentionScenario::run, (&LockContentionScenario,), rapid_run),
    ensures
        phase_views(payout_plan.phases@) == phase_views(payout_run@),
        payout_plan.required_utxos == payout_utxos,
        payout_plan.split_amount == payout_amount,
        phase_views(ramp_plan.phases@) == phase_views(ramp_run@),
        ramp_plan.required_utxos == 100 && ramp_plan.split_amount == 100_000_000,
        phase_views(flood_plan.phases@) == phase_views(flood_run@),
        flood_plan.required_utxos == 80 && flood_plan.split_amount == 100_000_000,
        phase_views(split_plan.phases@) == phase_views(split_run@),
        split_plan.required_utxos == 100 && split_plan.split_amount == 100_000_000,
        phase_views(rapid_plan.phases@) == phase_views(rapid_run@),
        rapid_plan.required_utxos == 100 && rapid_plan.split_amount == 100_000_000,
{
}

/// A budget is covered exactly by what is available.
pub proof fn law_budget_is_covered_by_what_is_available(
    balance: WalletBalance,
    budget: u64,
    r: bool,
)
    requires
        call_ensures(check_budget, (balance, budget), r),
    ensures
        balance.available >= budget ==> r,
        balance.available < budget ==> !r,
{
}

/// An output counts as usable exactly where it holds the least value or more.
pub proof fn law_usable_outputs_hold_enough(utxos: Vec<UtxoInfo>, min_value: u64, r: u64)
    requires
        call_ensures(count_usable_utxos, (&utxos, min_value), r),
    ensures
        r == utxos@.filter(|u: UtxoInfo| u.value >= min_value).len(),
        (forall|i: int| 0 <= i < utxos.len() ==> (#[trigger] utxos@[i]).value >= min_value) ==> r
            == utxos.len(),
        (forall|i: int| 0 <= i < utxos.len() ==> (#[trigger] utxos@[i]).value < min_value) ==> r
            == 0,
{
    lemma_usable_all_or_none(utxos@, min_value);
}

proof fn lemma_usable_all_or_none(s: Seq<UtxoInfo>, min_value: u64)
    ensures
        (forall|i: int| 0 <= i < s.len() ==> (#[trigger] s[i]).value >= min_value) ==> usable(
            s,
            min_value,
        ).len() == s.len(),
        (forall|i: int| 0 <= i < s.len() ==> (#[trigger] s[i]).value < min_value) ==> usable(
            s,
            min_value,
        ).len() == 0,
    decreases s.len(),
{
    reveal(Seq::filter);
    if s.len() > 0 {
        let rest = s.drop_last();
        lemma_usable_all_or_none(rest, min_value);
        assert(forall|i: int| 0 <= i < rest.len() ==> #[trigger] rest[i] == s[i]);
        assert(s.last() == s[s.len() - 1]);
    }
}

/// The preparation of outputs begins with a look at the balance, where outputs
/// are asked for at all. Pending transactions are waited for, ten minutes at
/// most, before anything is counted.
pub proof fn law_pending_is_waited_for(
    required: u64,
    split_amount: u64,
    fresh: Option<UtxoGuard>,
    guard: &mut UtxoGuard,
    balance: WalletBalance,
    elapsed_ns: u128,
    r: UtxoAction,
)
    requires
        call_ensures(UtxoGuard::ensure_utxos, (required, split_amount), fresh),
        fresh is Some ==> *old(guard) == fresh->Some_0,
        call_ensures(UtxoGuard::step, (guard, UtxoEvent::Balance { balance }, elapsed_ns), r),
    ensures
        fresh is None <==> required == 0,
        required > 0 ==> {
            &&& old(guard).required == required
            &&& old(guard).split_amount == split_amount
            &&& balance.pending_incoming == 0 && balance.pending_outgoing == 0 ==> r
                == UtxoAction::SyncAndCount && final(guard).stage == UtxoStage::Counting
            &&& balance.pending_incoming > 0 || balance.pending_outgoing > 0 ==> r == (
            UtxoAction::AwaitPending { max_wait_secs: 600 }) && final(guard).stage
                == UtxoStage::Clearing
            &&& final(guard).required == required
            &&& final(guard).split_amount == split_amount
        },
{
}

/// A count of as many outputs as are required, or more, ends the preparation.
/// One of fewer leads to a look at the balance, before a split, and ends it
/// short, after one. The time for the funds runs from the first count.
pub proof fn law_enough_outputs_end_the_preparation(
    guard: &mut UtxoGuard,
    have: u64,
    elapsed_ns: u128,
    r: UtxoAction,
)
    requires
        old(guard).wf(),
        old(guard).expects(UtxoEvent::Counted { have }),
        call_ensures(UtxoGuard::step, (guard, UtxoEvent::Counted { have }, elapsed_ns), r),
    ensures
        have >= old(guard).required <==> r == (UtxoAction::Ready { have }),
        have < old(guard).required && old(guard).stage == UtxoStage::Verifying ==> r == (
        UtxoAction::Short { have }),
        have < old(guard).required && old(guard).stage != UtxoStage::Verifying ==> r
            == UtxoAction::GetBalance && final(guard).stage == UtxoStage::Funding,
        final(guard).have == have,
        final(guard).required == old(guard).required,
        final(guard).split_amount == old(guard).split_amount,
        old(guard).stage == UtxoStage::Counting ==> final(guard).split_start_ns == elapsed_ns,
        old(guard).stage != UtxoStage::Counting ==> final(guard).split_start_ns == old(guard).split_start_ns,
        r is Ready || r is Short ==> final(guard).stage == UtxoStage::Over,
{
}

/// A split makes up for exactly the outputs that are missing, 200 at a time,
/// and is made exactly where what is available covers each of them with 5,000
/// for its fee. Until then the preparation pauses for 30 seconds and counts
/// again, for no more than 15 minutes.
pub proof fn law_split_makes_up_for_what_is_missing(
    guard: &mut UtxoGuard,
    balance: WalletBalance,
    elapsed_ns: u128,
    r: UtxoAction,
)
    requires
        old(guard).wf(),
        old(guard).can_cost(),
        old(guard).stage == UtxoStage::Funding,
        call_ensures(UtxoGuard::step, (guard, UtxoEvent::Balance { balance }, elapsed_ns), r),
    ensures
        ({
            let missing = old(guard).required - old(guard).have;
            let cost = missing * (old(guard).split_amount + 5_000);
            let late = elapsed_ns > old(guard).split_start_ns + 900_000_000_000;
            &&& missing > 0
            &&& balance.available >= cost ==> r == (UtxoAction::Split {
                amount_per_utxo: old(guard).split_amount,
                target_count: missing as u64,
                max_per_round: 200,
            })
            &&& balance.available >= cost ==> final(guard).stage == UtxoStage::Splitting
            &&& balance.available < cost && late ==> (r matches UtxoAction::FundsTimedOut {
                required_balance,
            } && required_balance == cost) && final(guard).stage == UtxoStage::Over
            &&& balance.available < cost && !late ==> r == (UtxoAction::PauseAndCount {
                secs: 30,
            }) && final(guard).stage == UtxoStage::Recounting
            &&& final(guard).split_amount == old(guard).split_amount
            &&& final(guard).have == old(guard).have
            &&& final(guard).required == old(guard).required
            &&& final(guard).split_start_ns == old(guard).split_start_ns
        }),
{
}

/// A split that is done is followed by a count. One that failed because funds
/// had not settled is tried again after 30 seconds and a count, for no more
/// than 15 minutes; any other failure ends the preparation.
pub proof fn law_failed_split_is_tried_again(
    guard: &mut UtxoGuard,
    event: UtxoEvent,
    elapsed_ns: u128,
    r: UtxoAction,
)
    requires
        old(guard).wf(),
        old(guard).stage == UtxoStage::Splitting,
        old(guard).expects(event),
        call_ensures(UtxoGuard::step, (guard, event, elapsed_ns), r),
    ensures
        ({
            let late = elapsed_ns > old(guard).split_start_ns + 900_000_000_000;
            &&& event is SplitDone ==> r == UtxoAction::Count && final(guard).stage
                == UtxoStage::Verifying
            &&& event is SplitFailed && !event->unsettled ==> r == UtxoAction::SplitFailed
            &&& event is SplitFailed && event->unsettled && late ==> r
                == UtxoAction::SettleTimedOut
            &&& event is SplitFailed && event->unsettled && !late ==> r == (
            UtxoAction::PauseAndCount { secs: 30 }) && final(guard).stage == UtxoStage::Recounting
            &&& r is SplitFailed || r is SettleTimedOut ==> final(guard).stage == UtxoStage::Over
            &&& final(guard).have == old(guard).have
            &&& final(guard).required == old(guard).required
            &&& final(guard).split_amount == old(guard).split_amount
            &&& final(guard).split_start_ns == old(guard).split_start_ns
        }),
{
}

/// A failed split counts as one for want of settled funds where its message
/// holds one of two words.
pub proof fn law_unsettled_funds_are_told_by_a_word(message: &str, r: bool)
    requires
        call_ensures(funds_unsettled, (message,), r),
    ensures
        r <==> exists|i: int, n: int|
            #![trigger message@.subrange(i, n)]
            0 <= i <= n <= message@.len() && (message@.subrange(i, n) == "FundsPending"@
                || message@.subrange(i, n) == "funds"@),
{
    let m = message@;
    if r {
        if contains_text(m, "FundsPending"@) {
            let i = choose|i: int| crate::text::occurs_at(m, "FundsPending"@, i);
            assert(m.subrange(i, i + "FundsPending"@.len()) == "FundsPending"@);
        } else {
            let i = choose|i: int| crate::text::occurs_at(m, "funds"@, i);
            assert(m.subrange(i, i + "funds"@.len()) == "funds"@);
        }
    }
    if exists|i: int, n: int|
        #![trigger m.subrange(i, n)]
        0 <= i <= n <= m.len() && (m.subrange(i, n) == "FundsPending"@ || m.subrange(i, n)
            == "funds"@) {
        let (i, n) = choose|i: int, n: int|
            #![trigger m.subrange(i, n)]
            0 <= i <= n <= m.len() && (m.subrange(i, n) == "FundsPending"@ || m.subrange(i, n)
                == "funds"@);
        assert(m.subrange(i, n).len() == n - i);
        if m.subrange(i, n) == "FundsPending"@ {
            assert(crate::text::occurs_at(m, "FundsPending"@, i));
        } else {
            assert(crate::text::occurs_at(m, "funds"@, i));
        }
    }
}

/// A warm-up pays 1 tXTM to the address that the pool hands out next.
pub proof fn law_warmup_pays_the_next_address(
    pool: &mut AddressPool,
    r: Recipient,
    same: &mut AddressPool,
    next: String,
)
    requires
        call_ensures(warmup_recipient, (pool,), r),
        old(same)@ == old(pool)@,
        call_ensures(AddressPool::next_address, (same,), next),
    ensures
        r.amount == 1_000_000,
        r.address@ == next@,
        final(pool)@ == final(same)@,
{
}

/// A warm-up whose fee is known is recorded once, as it went; one whose fee is
/// not known leaves nothing.
pub proof fn law_warmup_is_recorded_with_its_fee(
    collector: &mut MetricsCollector,
    wallet: &str,
    result: SendResult,
    timing: Timing,
)
    requires
        call_ensures(record_warmup, (collector, wallet, &result, timing), ()),
    ensures
        result.fee is None ==> final(collector)@ == old(collector)@,
        result.fee is Some ==> {
            let told = final(collector)@.transactions.last();
            &&& final(collector)@.transactions == old(collector)@.transactions.push(told)
            &&& final(collector)@.scans == old(collector)@.scans
            &&& final(collector)@.snapshots == old(collector)@.snapshots
            &&& told.wallet == wallet@
            &&& told.scenario == "baseline"@
            &&& told.tx_type == "warmup"@
            &&& told.amount == 1_000_000
            &&& told.fee == result.fee
            &&& told.accepted == result.accepted
            &&& told.tx_id == result.tx_id@
            &&& told.start_time == timing.start
            &&& told.end_time == timing.end
            &&& told.duration_ms == timing.duration_ms
        },
{
}

/// A wallet that exists is kept, whatever an earlier setup left. Else its seed
/// words are restored, where there are any, and refused where they do not
/// decode; without them the seed is a new one.
pub proof fn law_wallet_is_never_made_over(
    wallet_exists: bool,
    setup: Option<SetupState>,
    r: Result<SeedSource, String>,
)
    requires
        call_ensures(seed_source, (wallet_exists, &setup), r),
    ensures
        wallet_exists <==> r is Ok && r->Ok_0 is Existing,
        !wallet_exists && (setup is None || setup->Some_0.new_wallet_seed_words@.len() == 0) <==> r
            is Ok && r->Ok_0 is Random,
        r is Ok && r->Ok_0 is Restored ==> setup is Some && r->Ok_0->phrase@
            == setup->Some_0.new_wallet_seed_words@ && seed_of_phrase(r->Ok_0->phrase@) is Ok,
        r is Err ==> setup is Some && seed_of_phrase(setup->Some_0.new_wallet_seed_words@) is Err,
{
}

/// What a setup leaves is what it was given: the wallets, their addresses, the
/// network, and the base node of the flag or of the network.
pub proof fn law_setup_keeps_what_it_was_given(
    config: SetupConfig,
    new_wallet_db: &str,
    seed_words: Vec<String>,
    old_address: &str,
    new_address: &str,
    r: SetupState,
    public: String,
    network: &str,
    phrase: String,
    sep: &str,
)
    requires
        call_ensures(
            setup_state,
            (&config, new_wallet_db, &seed_words, old_address, new_address),
            r,
        ),
        call_ensures(default_base_node_url, (network,), public),
        network@ == config.network@,
        call_ensures(join, (&seed_words, sep), phrase),
        sep@ == " "@,
    ensures
        r.old_wallet_grpc@ == "http://127.0.0.1:"@ + decimal(config.old_wallet_grpc_port as nat),
        r.old_wallet_binary@ == config.old_wallet_binary@,
        r.new_wallet_db@ == new_wallet_db@,
        r.new_wallet_seed_words@ == phrase@,
        r.network@ == config.network@,
        r.old_wallet_address@ == old_address@,
        r.new_wallet_address@ == new_address@,
        config.base_node_url is Some ==> r.base_node_url@ == config.base_node_url->Some_0@,
        config.base_node_url is None ==> r.base_node_url@ == public@,
{
}

/// A setup goes on only when both wallets could be asked and each has the least
/// balance, a million for each tXTM; else it looks again after 30 seconds.
pub proof fn law_both_wallets_are_funded(
    old: Option<u64>,
    new: Option<u64>,
    min_balance_txm: u64,
    r: FundingStep,
)
    requires
        call_ensures(funding_step, (old, new, min_balance_txm), r),
    ensures
        r == FundingStep::Funded <==> old is Some && new is Some && old->Some_0
            >= min_balance_txm * 1_000_000 && new->Some_0 >= min_balance_txm * 1_000_000,
        r != FundingStep::Funded ==> r == (FundingStep::Wait { secs: 30 }),
{
}

/// The drivers are made exactly where the network has a name that is known,
/// there are seed words, and the database is not missing. They get that
/// network, these words and the base node that the configuration resolves to.
pub proof fn law_drivers_get_what_is_configured(
    config: WalletConfig,
    setup: Option<SetupState>,
    db: WalletDb,
    r: Result<DriverInputs, String>,
    words: Vec<String>,
    url: String,
    name: &str,
    network: Result<Network, String>,
)
    requires
        call_ensures(create_drivers, (&config, &setup, db), r),
        call_ensures(WalletConfig::seed_words, (&config, &setup), words),
        call_ensures(WalletConfig::resolved_base_node_url, (&config, &setup), url),
        name@ == config.network@,
        call_ensures(parse_network, (name,), network),
    ensures
        r is Ok <==> network is Ok && words.len() > 0 && db != WalletDb::Missing,
        r is Ok ==> {
            let d = r->Ok_0;
            &&& d.network == network->Ok_0
            &&& texts(d.seed_words@) == texts(words@)
            &&& d.base_node_url@ == url@
        },
        network is Err ==> r is Err && r->Err_0@ == network->Err_0@,
{
    assert(texts(words@).len() == words.len());
}

/// A pool that is stored is opened with the addresses of its entries, in their
/// order, and nothing is written. Where none is stored, one of the size asked
/// for is made and written, and hands out what is written.
pub proof fn law_opened_pool_hands_out_what_is_stored(
    stored: Option<Vec<AddressPoolEntry>>,
    network: &str,
    size: usize,
    r: Result<(AddressPool, Option<Vec<AddressPoolEntry>>), String>,
    known: Result<Network, String>,
    i: int,
)
    requires
        call_ensures(open_address_pool, (stored, network, size), r),
        call_ensures(parse_network, (network,), known),
    ensures
        stored is Some ==> {
            &&& r is Ok
            &&& r->Ok_0.1 is None
            &&& r->Ok_0.0@.counter == 0
            &&& r->Ok_0.0@.addresses.len() == stored->Some_0.len()
            &&& 0 <= i < stored->Some_0.len() ==> r->Ok_0.0@.addresses[i]
                == stored->Some_0@[i].address_base58@
        },
        stored is None ==> {
            &&& r is Ok <==> known is Ok
            &&& r is Ok ==> {
                &&& r->Ok_0.1 is Some
                &&& r->Ok_0.1->Some_0.len() == size
                &&& r->Ok_0.0@.counter == 0
                &&& r->Ok_0.0@.addresses.len() == size
                &&& 0 <= i < size ==> {
                    let entry = r->Ok_0.1->Some_0@[i];
                    &&& entry.index == i
                    &&& r->Ok_0.0@.addresses[i] == entry.address_base58@
                    &&& entry.address_base58@ == crate::tari::dual_address_base58(
                        entry.view_key_hex@,
                        entry.spend_key_hex@,
                        known->Ok_0,
                    )
                }
            }
        },
{
    if stored is Some {
        let entries = stored->Some_0;
        assert(entry_views(entries@).len() == entries.len());
        if 0 <= i < entries.len() {
            assert(entry_views(entries@)[i] == entries@[i]@);
        }
    } else if r is Ok {
        assert(opened_view(r) is Ok);
        let entries = r->Ok_0.1->Some_0;
        assert(entry_views(entries@).len() == entries.len());
        if 0 <= i < size {
            assert(entry_views(entries@)[i] == entries@[i]@);
            assert(entry_views(entries@)[i].index == i && entry_valid(
                entry_views(entries@)[i],
                known->Ok_0,
            ));
        }
    }
}

/// A drain takes the networks that the other commands take.
pub proof fn law_drain_takes_the_same_networks(
    name: &str,
    r: Result<Network, String>,
    known: Result<Network, String>,
)
    requires
        call_ensures(drain_network, (name,), r),
        call_ensures(parse_network, (name,), known),
    ensures
        r is Ok <==> known is Ok,
        r is Ok ==> r->Ok_0 == known->Ok_0,
{
}

/// What a step of the preparation costs can be computed unless the cost of the
/// missing outputs, with 5,000 for each, does not fit.
pub proof fn law_cost_of_outputs_must_fit(guard: UtxoGuard, r: bool)
    requires
        guard.wf(),
        call_ensures(UtxoGuard::can_step, (&guard,), r),
    ensures
        guard.stage != UtxoStage::Funding ==> r,
        guard.stage == UtxoStage::Funding ==> (r <==> (guard.required - guard.have) * (
        guard.split_amount + 5_000) <= u64::MAX),
{
}

/// What is said where funds did not come in time has every amount in whole
/// tXTM, each of them a million.
pub proof fn law_amounts_are_told_in_whole_txtm(
    wallet: &str,
    required_balance: u64,
    balance: WalletBalance,
    r: String,
)
    requires
        call_ensures(funds_timeout_error, (wallet, required_balance, balance), r),
    ensures
        r@ == "["@ + wallet@
            + "] Timed out waiting for sufficient available balance. Need "@ + decimal(
            (required_balance / 1_000_000) as nat,
        ) + " tXTM, have "@ + decimal((balance.available / 1_000_000) as nat)
            + " tXTM available ("@ + decimal((balance.pending_outgoing / 1_000_000) as nat)
            + " tXTM pending out, "@ + decimal((balance.pending_incoming / 1_000_000) as nat)
            + " tXTM pending in)"@,
{
}

/// What is said where a pool or an answer of a wallet is missing.
pub proof fn law_missing_things_are_named(
    path: &str,
    pool: String,
    wallet: WalletKind,
    check: WalletCheck,
    context: &'static str,
)
    requires
        call_ensures(missing_pool_error, (path,), pool),
        call_ensures(check_context, (wallet, check), context),
    ensures
        pool@ == "Address pool file not found at "@ + path@ + ". Run setup first."@,
        wallet == WalletKind::Old && check == WalletCheck::Balance ==> context@
            == "Old wallet balance check"@,
        wallet == WalletKind::Old && check == WalletCheck::Address ==> context@
            == "Old wallet address"@,
        wallet == WalletKind::New && check == WalletCheck::Balance ==> context@
            == "New wallet balance check"@,
        wallet == WalletKind::New && check == WalletCheck::Address ==> context@
            == "New wallet address"@,
{
}

/// A pool is generated for a network that is known, with as many entries as
/// asked for.
pub proof fn law_pool_is_generated_for_its_network(
    network: &str,
    size: usize,
    r: Result<(AddressPool, Vec<AddressPoolEntry>), String>,
    known: Result<Network, String>,
    i: int,
)
    requires
        call_ensures(init_address_pool, (network, size), r),
        call_ensures(parse_network, (network,), known),
    ensures
        r is Ok <==> known is Ok,
        r is Err ==> r->Err_0@ == known->Err_0@,
        r is Ok ==> {
            &&& r->Ok_0.1.len() == size
            &&& r->Ok_0.0@.counter == 0
            &&& r->Ok_0.0@.addresses.len() == size
            &&& 0 <= i < size ==> {
                let entry = r->Ok_0.1@[i];
                &&& entry.index == i
                &&& r->Ok_0.0@.addresses[i] == entry.address_base58@
                &&& entry.address_base58@ == crate::tari::dual_address_base58(
                    entry.view_key_hex@,
                    entry.spend_key_hex@,
                    known->Ok_0,
                )
            }
        },
{
    if r is Ok && 0 <= i < size {
        assert(r->Ok_0.1@[i].index == i && entry_valid(r->Ok_0.1@[i]@, known->Ok_0));
    }
}

/// Seed words that were to be restored are, where they decode; else the
/// decoder's words are handed on.
pub proof fn law_restored_words_are_kept(
    phrase: &str,
    decoded: Result<u16, String>,
    r: Result<SeedSource, String>,
)
    requires
        call_ensures(settle_restored, (phrase, decoded), r),
    ensures
        r is Ok <==> decoded is Ok,
        r is Ok ==> r->Ok_0 is Restored && r->Ok_0->phrase@ == phrase@,
        r is Err ==> r->Err_0@ == decoded->Err_0@,
{
}

/// A network that was not taken stands in the way of the drivers before
/// anything else does, and what was taken is used.
pub proof fn law_network_stands_first_in_the_way(
    config: WalletConfig,
    setup: Option<SetupState>,
    db: WalletDb,
    network: Result<Network, String>,
    r: Result<DriverInputs, String>,
    words: Vec<String>,
)
    requires
        call_ensures(settle_drivers, (&config, &setup, db, network), r),
        call_ensures(WalletConfig::seed_words, (&config, &setup), words),
    ensures
        network is Err ==> r is Err && r->Err_0@ == network->Err_0@,
        network is Ok ==> (r is Ok <==> words.len() > 0 && db != WalletDb::Missing),
        r is Ok ==> r->Ok_0.network == network->Ok_0 && texts(r->Ok_0.seed_words@) == texts(
            words@,
        ),
        network is Ok && words.len() == 0 ==> r->Err_0@
            == "No seed words provided. Either pass --new-wallet-seed-words, set TARI_SEED_WORDS env var, or run `setup` first."@,
        network is Ok && words.len() > 0 && db == WalletDb::Missing ==> r->Err_0@
            == "Wallet database not found at "@ + config.new_wallet_db@
            + ". Run `setup` first or pass --new-wallet-db."@,
{
    assert(texts(words@).len() == words.len());
}

/// The end of the wait for pending transactions leads to the first count.
pub proof fn law_cleared_wallet_is_counted(guard: &mut UtxoGuard, elapsed_ns: u128, r: UtxoAction)
    requires
        old(guard).wf(),
        old(guard).stage == UtxoStage::Clearing,
        call_ensures(UtxoGuard::step, (guard, UtxoEvent::PendingCleared, elapsed_ns), r),
    ensures
        r == UtxoAction::SyncAndCount,
        final(guard).stage == UtxoStage::Counting,
        final(guard).required == old(guard).required,
        final(guard).split_amount == old(guard).split_amount,
{
}

/// The monitors sample every 30 seconds, and a balance may be off by one tXTM,
/// which is a million.
pub proof fn law_samples_and_tolerance()
    ensures
        MONITOR_INTERVAL_SECS == 30,
        FEE_TOLERANCE == 1_000_000,
{
}

} // verus!
