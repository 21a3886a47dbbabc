//! Inbound flood (receive many transactions).
use vstd::prelude::*;
use vstd::string::*;

use super::{
    phase_views, Phase, PhaseView, Scenario, ScenarioView, Work, DEFAULT_SPLIT_AMOUNT,
};
use crate::driver::{status_views, SendResult, TransactionStatus, TransactionStatusView};
use crate::load::patterns::{LoadPattern, Rate};
use crate::metrics::recorder::{
    MetricsCollector, MetricsView, Timing, TransactionRecord, TransactionRecordView,
};
use crate::time::{is_within, secs_ns, Timestamp};

verus! {

/// How long to watch for incoming transactions: 10 minutes.
pub const WATCH_SECS: u64 = 600;

/// Seconds between two looks.
pub const WATCH_POLL_SECS: u64 = 15;

/// Inbound flood (receive many transactions).
///
/// Measures how quickly a wallet detects incoming transactions.
/// Budget: 20,000 tXTM.
///
/// This scenario is asymmetric: one wallet is the "receiver under test",
/// the other is the sender. The orchestrator must run this twice (once per wallet).
/// Here we measure the receiving side's detection latency.
pub struct InboundFloodScenario;

/// Poisson sends at 1 every 2 s on average, for 2 min, then the watch.
pub open spec fn flood_phases() -> Seq<PhaseView> {
    seq![
        PhaseView {
            label: "inbound_flood_send"@,
            work: Work::Load {
                pattern: LoadPattern::Poisson {
                    rate: Rate { txs: 1, per_secs: 2 },
                    duration_secs: 120,
                },
                amount: 1_000_000,
                batch_size: 1,
            },
        },
        PhaseView {
            label: "inbound_flood_detect"@,
            work: Work::Watch { duration_secs: WATCH_SECS, poll_secs: WATCH_POLL_SECS },
        },
    ]
}

impl Scenario for InboundFloodScenario {
    open spec fn profile(&self) -> ScenarioView {
        ScenarioView {
            name: "inbound_flood"@,
            budget: 20_000_000_000,
            required_utxos: 80,
            split_amount: DEFAULT_SPLIT_AMOUNT as int,
            phases: flood_phases(),
        }
    }

    fn name(&self) -> (r: &'static str) {
        "inbound_flood"
    }

    fn budget(&self) -> (r: u64) {
        20_000_000_000
    }

    fn required_utxos(&self) -> (r: u64) {
        80
    }

    fn split_amount(&self) -> (r: u64) {
        DEFAULT_SPLIT_AMOUNT
    }

    fn run(&self) -> (r: Vec<Phase>) {
        let mut phases: Vec<Phase> = Vec::new();
        phases.push(
            Phase {
                label: "inbound_flood_send",
                work: Work::Load {
                    pattern: LoadPattern::Poisson {
                        rate: Rate { txs: 1, per_secs: 2 },
                        duration_secs: 120,
                    },
                    amount: 1_000_000,
                    batch_size: 1,
                },
            },
        );
        phases.push(
            Phase {
                label: "inbound_flood_detect",
                work: Work::Watch { duration_secs: WATCH_SECS, poll_secs: WATCH_POLL_SECS },
            },
        );
        assert(phase_views(phases@) =~= flood_phases());
        phases
    }
}

/// A watch for incoming transactions under way.
#[derive(Clone, Copy, Debug, PartialEq, Eq, Structural)]
pub struct InboundWatch {
    /// How many transactions the wallet listed before the watch.
    pub initial_tx_count: usize,
    /// How many it listed at the last look that found new ones.
    pub last_tx_count: usize,
    /// New transactions so far.
    pub detected_count: usize,
    /// The balance at the last look.
    pub last_available: u64,
}

/// The record of a transaction that was detected.
pub open spec fn detection(
    wallet: Seq<char>,
    label: Seq<char>,
    tx: TransactionStatusView,
    at: Timestamp,
    elapsed_ms: u64,
) -> TransactionRecordView {
    TransactionRecordView {
        wallet,
        scenario: label,
        tx_id: tx.tx_id,
        start_time: at,
        end_time: at,
        duration_ms: elapsed_ms,
        accepted: true,
        error: None,
        amount: 0,
        fee: None,
        tx_type: "inbound_detect"@,
    }
}

/// The records of the transactions from `first` on.
pub open spec fn detections(
    wallet: Seq<char>,
    label: Seq<char>,
    txs: Seq<TransactionStatusView>,
    first: int,
    at: Timestamp,
    elapsed_ms: u64,
) -> Seq<TransactionRecordView> {
    if first < txs.len() {
        Seq::new(
            (txs.len() - first) as nat,
            |i: int| detection(wallet, label, txs[first + i], at, elapsed_ms),
        )
    } else {
        Seq::empty()
    }
}

impl InboundWatch {
    /// What was detected is what came on top of the first list.
    pub open spec fn wf(self) -> bool {
        self.initial_tx_count + self.detected_count == self.last_tx_count
    }

    /// Starts a watch, given how many transactions the wallet lists and what
    /// it has.
    pub fn new(tx_count: usize, available: u64) -> (r: Self)
        ensures
            r.wf(),
            r == (InboundWatch {
                initial_tx_count: tx_count,
                last_tx_count: tx_count,
                detected_count: 0,
                last_available: available,
            }),
    {
        InboundWatch {
            initial_tx_count: tx_count,
            last_tx_count: tx_count,
            detected_count: 0,
            last_available: available,
        }
    }

    /// Whether the watch goes on.
    pub fn goes_on(elapsed_ns: u128, duration_secs: u64) -> (r: bool)
        ensures
            r == (elapsed_ns < secs_ns(duration_secs)),
    {
        is_within(elapsed_ns, duration_secs)
    }

    /// Takes note of a list of transactions, and records those that came on
    /// top of the last one.
    pub fn observe(
        &mut self,
        collector: &mut MetricsCollector,
        wallet: &str,
        label: &str,
        current: &Vec<TransactionStatus>,
        at: Timestamp,
        elapsed_ms: u64,
    ) -> (r: usize)
        requires
            old(self).wf(),
            old(collector).wf(),
        ensures
            final(self).wf(),
            final(collector).wf(),
            r == (if current.len() > old(self).last_tx_count {
                current.len() - old(self).last_tx_count
            } else {
                0
            }),
            *final(self) == (InboundWatch {
                last_tx_count: (old(self).last_tx_count + r) as usize,
                detected_count: (old(self).detected_count + r) as usize,
                ..*old(self)
            }),
            final(collector)@ == (MetricsView {
                transactions: old(collector)@.transactions + detections(
                    wallet@,
                    label@,
                    status_views(current@),
                    old(self).last_tx_count as int,
                    at,
                    elapsed_ms,
                ),
                ..old(collector)@
            }),
    {
        let ghost before = collector@;
        let ghost txs = status_views(current@);
        let first: usize = self.last_tx_count;
        let ghost all = detections(wallet@, label@, txs, first as int, at, elapsed_ms);
        if current.len() <= first {
            assert(before.transactions + all =~= before.transactions);
            return 0;
        }
        let mut i: usize = first;
        assert(before.transactions + all.take(0) =~= before.transactions);
        while i < current.len()
            invariant
                first <= i <= current.len(),
                first < current.len(),
                collector.wf(),
                txs == status_views(current@),
                all == detections(wallet@, label@, txs, first as int, at, elapsed_ms),
                collector@ == (MetricsView {
                    transactions: before.transactions + all.take(i - first),
                    ..before
                }),
            decreases current.len() - i,
        {
            let found = SendResult {
                tx_id: current[i].tx_id.clone(),
                accepted: true,
                error: None,
                fee: None,
            };
            let timing = Timing { start: at, end: at, duration_ms: elapsed_ms };
            let ghost so_far = collector@.transactions;
            collector.record_transaction(
                TransactionRecord::of_send(wallet, label, "inbound_detect", 0, &found, timing),
            );
            assert(all[i - first] == detection(wallet@, label@, txs[i as int], at, elapsed_ms));
            assert(before.transactions + all.take(i + 1 - first) =~= so_far.push(all[i - first]));
            i = i + 1;
        }
        assert(all.take(i - first) =~= all);
        let new_txs: usize = current.len() - first;
        self.detected_count = self.detected_count + new_txs;
        self.last_tx_count = current.len();
        new_txs
    }

    /// Takes note of the balance; tells whether it changed.
    pub fn observe_balance(&mut self, available: u64) -> (r: bool)
        requires
            old(self).wf(),
        ensures
            final(self).wf(),
            r == (available != old(self).last_available),
            *final(self) == (InboundWatch { last_available: available, ..*old(self) }),
    {
        let changed = available != self.last_available;
        self.last_available = available;
        changed
    }
}

/// Two looks in a row record together what the later one alone would have
/// recorded, and nothing twice: the second look takes up where the first ended.
pub proof fn law_looks_do_not_overlap(
    wallet: Seq<char>,
    label: Seq<char>,
    txs: Seq<TransactionStatusView>,
    first: int,
    seen: int,
    at: Timestamp,
    elapsed_ms: u64,
)
    requires
        0 <= first <= seen <= txs.len(),
    ensures
        detections(wallet, label, txs.take(seen), first, at, elapsed_ms) + detections(
            wallet,
            label,
            txs,
            seen,
            at,
            elapsed_ms,
        ) == detections(wallet, label, txs, first, at, elapsed_ms),
{
    assert(detections(wallet, label, txs.take(seen), first, at, elapsed_ms) + detections(
        wallet,
        label,
        txs,
        seen,
        at,
        elapsed_ms,
    ) =~= detections(wallet, label, txs, first, at, elapsed_ms));
}

/// The scenario sends 1 tXTM at random, one every two seconds on average, for
/// two minutes, and then looks for ten minutes, every 15 seconds. It asks for
/// more outputs than the 60 sends that this comes to, and they stay within the
/// budget of 20,000 tXTM.
pub proof fn law_flood_is_sent_and_watched(
    scenario: InboundFloodScenario,
    name: &'static str,
    phases: Vec<Phase>,
    budget: u64,
    utxos: u64,
    split: u64,
)
    requires
        call_ensures(InboundFloodScenario::name, (&scenario,), name),
        call_ensures(InboundFloodScenario::run, (&scenario,), phases),
        call_ensures(InboundFloodScenario::budget, (&scenario,), budget),
        call_ensures(InboundFloodScenario::required_utxos, (&scenario,), utxos),
        call_ensures(InboundFloodScenario::split_amount, (&scenario,), split),
    ensures
        name@ == "inbound_flood"@,
        phases.len() == 2,
        phases@[0].label@ == "inbound_flood_send"@,
        phases@[1].label@ == "inbound_flood_detect"@,
        phases@[0].work matches Work::Load { pattern, amount, batch_size } && {
            &&& amount == 1_000_000
            &&& batch_size == 1
            &&& pattern matches LoadPattern::Poisson { rate, duration_secs } && {
                &&& rate.txs > 0
                &&& rate.per_secs == 2 * rate.txs
                &&& duration_secs == 2 * 60
                &&& duration_secs * rate.txs <= utxos * rate.per_secs
                &&& duration_secs * rate.txs * amount <= budget * rate.per_secs
            }
        },
        phases@[1].work == (Work::Watch { duration_secs: 600, poll_secs: 15 }),
        budget == 20_000 * 1_000_000,
        utxos == 80,
        split == 100 * 1_000_000,
{
    assert(phase_views(phases@).len() == phases.len());
    assert(phase_views(phases@)[0] == phases@[0]@);
    assert(phase_views(phases@)[1] == phases@[1]@);
}

/// A watch lasts as long as it is to. Each transaction that is listed on top
/// of those listed before is recorded once, in its place and under its
/// identifier, with the time of the look; those listed before are not recorded
/// again, and a list that is no longer adds nothing.
pub proof fn law_each_arrival_is_recorded_once(
    watch: &mut InboundWatch,
    collector: &mut MetricsCollector,
    wallet: &str,
    label: &str,
    current: Vec<TransactionStatus>,
    at: Timestamp,
    elapsed_ms: u64,
    r: usize,
    k: int,
)
    requires
        old(watch).wf(),
        call_ensures(
            InboundWatch::observe,
            (watch, collector, wallet, label, &current, at, elapsed_ms),
            r,
        ),
    ensures
        ({
            let seen = old(watch).last_tx_count as int;
            let before = old(collector)@.transactions;
            let after = final(collector)@.transactions;
            &&& current.len() <= seen ==> r == 0 && final(watch).last_tx_count == seen
            &&& current.len() > seen ==> seen + r == current.len() && final(watch).last_tx_count
                == current.len()
            &&& final(watch).detected_count - old(watch).detected_count == r
            &&& final(watch).initial_tx_count == old(watch).initial_tx_count
            &&& final(watch).last_available == old(watch).last_available
            &&& after.len() == before.len() + r
            &&& 0 <= k < before.len() ==> after[k] == before[k]
            &&& 0 <= k < r ==> {
                let told = after[before.len() + k];
                &&& told.tx_id == current@[seen + k].tx_id@
                &&& told.wallet == wallet@
                &&& told.scenario == label@
                &&& told.tx_type == "inbound_detect"@
                &&& told.accepted
                &&& told.error is None
                &&& told.amount == 0
                &&& told.fee is None
                &&& told.start_time == at
                &&& told.end_time == at
                &&& told.duration_ms == elapsed_ms
            }
        }),
        final(collector)@.scans == old(collector)@.scans,
        final(collector)@.snapshots == old(collector)@.snapshots,
{
    let seen = old(watch).last_tx_count as int;
    let txs = status_views(current@);
    assert(txs.len() == current.len());
    if 0 <= k < r {
        assert(txs[seen + k] == current@[seen + k]@);
        let told = detections(wallet@, label@, txs, seen, at, elapsed_ms);
        assert(told[k] == detection(wallet@, label@, txs[seen + k], at, elapsed_ms));
    }
}

/// A watch begins with what is listed already, which is not detected, and ends
/// with its time. It tells of a balance that is not the one seen last.
pub proof fn law_watch_begins_with_what_is_there(
    tx_count: usize,
    available: u64,
    fresh: InboundWatch,
    elapsed_ns: u128,
    duration_secs: u64,
    goes_on: bool,
    watch: &mut InboundWatch,
    now: u64,
    changed: bool,
)
    requires
        call_ensures(InboundWatch::new, (tx_count, available), fresh),
        call_ensures(InboundWatch::goes_on, (elapsed_ns, duration_secs), goes_on),
        call_ensures(InboundWatch::observe_balance, (watch, now), changed),
    ensures
        fresh.last_tx_count == tx_count,
        fresh.detected_count == 0,
        fresh.last_available == available,
        goes_on <==> elapsed_ns < duration_secs * 1_000_000_000,
        changed <==> old(watch).last_available != now,
        final(watch).last_available == now,
        final(watch).last_tx_count == old(watch).last_tx_count,
        final(watch).detected_count == old(watch).detected_count,
{
}

} // verus!
