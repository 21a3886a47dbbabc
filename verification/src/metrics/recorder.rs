//! Records of what a run did, and the statistics drawn from them.
use vstd::prelude::*;
use vstd::string::*;

use crate::driver::{SendResult, SendResultView};
use crate::text::{clone_opt, opt_view, str_eq};
use crate::time::{seconds_between, whole_secs, Timestamp};

verus! {

/// When a measured call began and ended, and how long it took.
#[derive(Clone, Copy, Debug, PartialEq, Eq, Structural)]
pub struct Timing {
    pub start: Timestamp,
    pub end: Timestamp,
    pub duration_ms: u64,
}

/// A single transaction timing record.
#[derive(Debug)]
pub struct TransactionRecord {
    pub wallet: String,
    pub scenario: String,
    pub tx_id: String,
    pub start_time: Timestamp,
    pub end_time: Timestamp,
    pub duration_ms: u64,
    pub accepted: bool,
    pub error: Option<String>,
    pub amount: u64,
    pub fee: Option<u64>,
    pub tx_type: String,
}

/// The contents of a `TransactionRecord`.
pub struct TransactionRecordView {
    pub wallet: Seq<char>,
    pub scenario: Seq<char>,
    pub tx_id: Seq<char>,
    pub start_time: Timestamp,
    pub end_time: Timestamp,
    pub duration_ms: u64,
    pub accepted: bool,
    pub error: Option<Seq<char>>,
    pub amount: u64,
    pub fee: Option<u64>,
    pub tx_type: Seq<char>,
}

impl View for TransactionRecord {
    type V = TransactionRecordView;

    open spec fn view(&self) -> TransactionRecordView {
        TransactionRecordView {
            wallet: self.wallet@,
            scenario: self.scenario@,
            tx_id: self.tx_id@,
            start_time: self.start_time,
            end_time: self.end_time,
            duration_ms: self.duration_ms,
            accepted: self.accepted,
            error: opt_view(self.error),
            amount: self.amount,
            fee: self.fee,
            tx_type: self.tx_type@,
        }
    }
}

impl Clone for TransactionRecord {
    fn clone(&self) -> (r: Self)
        ensures
            r@ == self@,
    {
        TransactionRecord {
            wallet: self.wallet.clone(),
            scenario: self.scenario.clone(),
            tx_id: self.tx_id.clone(),
            start_time: self.start_time,
            end_time: self.end_time,
            duration_ms: self.duration_ms,
            accepted: self.accepted,
            error: clone_opt(&self.error),
            amount: self.amount,
            fee: self.fee,
            tx_type: self.tx_type.clone(),
        }
    }
}

/// The record of a send that came to `result`.
pub open spec fn send_record(
    wallet: Seq<char>,
    scenario: Seq<char>,
    tx_type: Seq<char>,
    amount: u64,
    result: SendResultView,
    timing: Timing,
) -> TransactionRecordView {
    TransactionRecordView {
        wallet,
        scenario,
        tx_id: result.tx_id,
        start_time: timing.start,
        end_time: timing.end,
        duration_ms: timing.duration_ms,
        accepted: result.accepted,
        error: result.error,
        amount,
        fee: result.fee,
        tx_type,
    }
}

impl TransactionRecord {
    /// Records a send that came to `result`.
    pub fn of_send(
        wallet: &str,
        scenario: &str,
        tx_type: &str,
        amount: u64,
        result: &SendResult,
        timing: Timing,
    ) -> (r: TransactionRecord)
        ensures
            r@ == send_record(wallet@, scenario@, tx_type@, amount, result@, timing),
    {
        TransactionRecord {
            wallet: wallet.to_owned(),
            scenario: scenario.to_owned(),
            tx_id: result.tx_id.clone(),
            start_time: timing.start,
            end_time: timing.end,
            duration_ms: timing.duration_ms,
            accepted: result.accepted,
            error: clone_opt(&result.error),
            amount,
            fee: result.fee,
            tx_type: tx_type.to_owned(),
        }
    }
}

/// A blockchain scanning measurement record.
#[derive(Debug)]
pub struct ScanRecord {
    pub wallet: String,
    pub scan_type: String,
    pub start_time: Timestamp,
    pub end_time: Timestamp,
    pub duration_ms: u64,
    pub start_height: Option<u64>,
    pub end_height: Option<u64>,
    pub blocks_scanned: Option<u64>,
}

/// The contents of a `ScanRecord`.
pub struct ScanRecordView {
    pub wallet: Seq<char>,
    pub scan_type: Seq<char>,
    pub start_time: Timestamp,
    pub end_time: Timestamp,
    pub duration_ms: u64,
    pub start_height: Option<u64>,
    pub end_height: Option<u64>,
    pub blocks_scanned: Option<u64>,
}

impl View for ScanRecord {
    type V = ScanRecordView;

    open spec fn view(&self) -> ScanRecordView {
        ScanRecordView {
            wallet: self.wallet@,
            scan_type: self.scan_type@,
            start_time: self.start_time,
            end_time: self.end_time,
            duration_ms: self.duration_ms,
            start_height: self.start_height,
            end_height: self.end_height,
            blocks_scanned: self.blocks_scanned,
        }
    }
}

impl Clone for ScanRecord {
    fn clone(&self) -> (r: Self)
        ensures
            r@ == self@,
    {
        ScanRecord {
            wallet: self.wallet.clone(),
            scan_type: self.scan_type.clone(),
            start_time: self.start_time,
            end_time: self.end_time,
            duration_ms: self.duration_ms,
            start_height: self.start_height,
            end_height: self.end_height,
            blocks_scanned: self.blocks_scanned,
        }
    }
}

/// A periodic system snapshot.
#[derive(Debug)]
pub struct SystemSnapshot {
    pub timestamp: Timestamp,
    pub wallet: String,
    pub memory_rss_bytes: u64,
    /// The bits of the sampled single-precision CPU percentage.
    pub cpu_percent_bits: u32,
    pub utxo_count: Option<u64>,
    pub balance_available: Option<u64>,
}

/// The contents of a `SystemSnapshot`.
pub struct SystemSnapshotView {
    pub timestamp: Timestamp,
    pub wallet: Seq<char>,
    pub memory_rss_bytes: u64,
    pub cpu_percent_bits: u32,
    pub utxo_count: Option<u64>,
    pub balance_available: Option<u64>,
}

impl View for SystemSnapshot {
    type V = SystemSnapshotView;

    open spec fn view(&self) -> SystemSnapshotView {
        SystemSnapshotView {
            timestamp: self.timestamp,
            wallet: self.wallet@,
            memory_rss_bytes: self.memory_rss_bytes,
            cpu_percent_bits: self.cpu_percent_bits,
            utxo_count: self.utxo_count,
            balance_available: self.balance_available,
        }
    }
}

impl Clone for SystemSnapshot {
    fn clone(&self) -> (r: Self)
        ensures
            r@ == self@,
    {
        SystemSnapshot {
            timestamp: self.timestamp,
            wallet: self.wallet.clone(),
            memory_rss_bytes: self.memory_rss_bytes,
            cpu_percent_bits: self.cpu_percent_bits,
            utxo_count: self.utxo_count,
            balance_available: self.balance_available,
        }
    }
}

/// The contents of a list of records.
pub open spec fn record_views(v: Seq<TransactionRecord>) -> Seq<TransactionRecordView> {
    v.map_values(|r: TransactionRecord| r@)
}

/// The contents of a list of scans.
pub open spec fn scan_views(v: Seq<ScanRecord>) -> Seq<ScanRecordView> {
    v.map_values(|r: ScanRecord| r@)
}

/// The contents of a list of snapshots.
pub open spec fn snapshot_views(v: Seq<SystemSnapshot>) -> Seq<SystemSnapshotView> {
    v.map_values(|r: SystemSnapshot| r@)
}

/// The fee of a record, nothing where none is known.
pub open spec fn fee_of(r: TransactionRecordView) -> nat {
    match r.fee {
        Some(f) => f as nat,
        None => 0,
    }
}

/// The known fees of a list of records, added up.
pub open spec fn fee_sum(s: Seq<TransactionRecordView>) -> nat
    decreases s.len(),
{
    if s.len() == 0 {
        0
    } else {
        fee_sum(s.drop_last()) + fee_of(s.last())
    }
}

/// The durations of a list of records, added up.
pub open spec fn duration_sum(s: Seq<TransactionRecordView>) -> nat
    decreases s.len(),
{
    if s.len() == 0 {
        0
    } else {
        duration_sum(s.drop_last()) + s.last().duration_ms as nat
    }
}

/// Everything that a collector holds.
pub struct MetricsView {
    pub transactions: Seq<TransactionRecordView>,
    pub snapshots: Seq<SystemSnapshotView>,
    pub scans: Seq<ScanRecordView>,
}

impl MetricsView {
    /// With one record of a transaction more.
    pub open spec fn with_record(self, record: TransactionRecordView) -> MetricsView {
        MetricsView { transactions: self.transactions.push(record), ..self }
    }
}

/// Collects all metrics across scenarios.
pub struct MetricsCollector {
    transactions: Vec<TransactionRecord>,
    snapshots: Vec<SystemSnapshot>,
    scan_records: Vec<ScanRecord>,
    cumulative_fees: u64,
}

impl View for MetricsCollector {
    type V = MetricsView;

    closed spec fn view(&self) -> MetricsView {
        MetricsView {
            transactions: record_views(self.transactions@),
            snapshots: snapshot_views(self.snapshots@),
            scans: scan_views(self.scan_records@),
        }
    }
}

impl MetricsCollector {
    /// The running fee total is the sum of the fees recorded.
    pub closed spec fn wf(&self) -> bool {
        self.cumulative_fees == fee_sum(record_views(self.transactions@))
    }

    pub fn new() -> (r: Self)
        ensures
            r.wf(),
            r@ == (MetricsView {
                transactions: Seq::empty(),
                snapshots: Seq::empty(),
                scans: Seq::empty(),
            }),
    {
        let r = MetricsCollector {
            transactions: Vec::new(),
            snapshots: Vec::new(),
            scan_records: Vec::new(),
            cumulative_fees: 0,
        };
        assert(r@.transactions =~= Seq::empty());
        assert(r@.snapshots =~= Seq::empty());
        assert(r@.scans =~= Seq::empty());
        r
    }

    /// Record a transaction timing.
    pub fn record_transaction(&mut self, record: TransactionRecord)
        requires
            old(self).wf(),
            record.fee matches Some(f) ==> fee_sum(old(self)@.transactions) + f <= u64::MAX,
        ensures
            final(self).wf(),
            final(self)@ == old(self)@.with_record(record@),
    {
        let ghost before = record_views(self.transactions@);
        let ghost view = record@;
        if let Some(fee) = record.fee {
            self.cumulative_fees = self.cumulative_fees + fee;
        }
        self.transactions.push(record);
        assert(record_views(self.transactions@) =~= before.push(view));
        assert(before.push(view).drop_last() =~= before);
    }

    /// Whether a record's fee still fits under the running total.
    pub fn can_record(&self, fee: Option<u64>) -> (r: bool)
        requires
            self.wf(),
        ensures
            r == (fee matches Some(f) ==> fee_sum(self@.transactions) + f <= u64::MAX),
    {
        match fee {
            Some(f) => f <= u64::MAX - self.cumulative_fees,
            None => true,
        }
    }

    /// Record a system snapshot.
    pub fn record_snapshot(&mut self, snapshot: SystemSnapshot)
        requires
            old(self).wf(),
        ensures
            final(self).wf(),
            final(self)@ == (MetricsView {
                snapshots: old(self)@.snapshots.push(snapshot@),
                ..old(self)@
            }),
    {
        let ghost before = snapshot_views(self.snapshots@);
        let ghost view = snapshot@;
        self.snapshots.push(snapshot);
        assert(snapshot_views(self.snapshots@) =~= before.push(view));
    }

    /// Record a blockchain scan measurement.
    pub fn record_scan(&mut self, record: ScanRecord)
        requires
            old(self).wf(),
        ensures
            final(self).wf(),
            final(self)@ == (MetricsView { scans: old(self)@.scans.push(record@), ..old(self)@ }),
    {
        let ghost before = scan_views(self.scan_records@);
        let ghost view = record@;
        self.scan_records.push(record);
        assert(scan_views(self.scan_records@) =~= before.push(view));
    }

    /// Get all scan records.
    pub fn get_scan_records(&self) -> (r: Vec<ScanRecord>)
        ensures
            scan_views(r@) == self@.scans,
    {
        let mut out: Vec<ScanRecord> = Vec::new();
        let mut i: usize = 0;
        while i < self.scan_records.len()
            invariant
                i <= self.scan_records.len(),
                scan_views(out@) == self@.scans.take(i as int),
            decreases self.scan_records.len() - i,
        {
            let ghost before = scan_views(out@);
            out.push(self.scan_records[i].clone());
            assert(scan_views(out@) =~= before.push(self@.scans[i as int]));
            i = i + 1;
            assert(self@.scans.take(i as int) =~= before.push(self@.scans[i - 1]));
        }
        assert(self@.scans.take(i as int) =~= self@.scans);
        out
    }

    /// Get total fees spent so far.
    pub fn total_fees(&self) -> (r: u64)
        requires
            self.wf(),
        ensures
            r == fee_sum(self@.transactions),
    {
        self.cumulative_fees
    }

    /// Get all transaction records.
    pub fn get_transactions(&self) -> (r: Vec<TransactionRecord>)
        ensures
            record_views(r@) == self@.transactions,
    {
        let mut out: Vec<TransactionRecord> = Vec::new();
        let mut i: usize = 0;
        while i < self.transactions.len()
            invariant
                i <= self.transactions.len(),
                record_views(out@) == self@.transactions.take(i as int),
            decreases self.transactions.len() - i,
        {
            let ghost before = record_views(out@);
            out.push(self.transactions[i].clone());
            assert(record_views(out@) =~= before.push(self@.transactions[i as int]));
            i = i + 1;
            assert(self@.transactions.take(i as int) =~= before.push(self@.transactions[i - 1]));
        }
        assert(self@.transactions.take(i as int) =~= self@.transactions);
        out
    }

    /// Get all system snapshots.
    pub fn get_snapshots(&self) -> (r: Vec<SystemSnapshot>)
        ensures
            snapshot_views(r@) == self@.snapshots,
    {
        let mut out: Vec<SystemSnapshot> = Vec::new();
        let mut i: usize = 0;
        while i < self.snapshots.len()
            invariant
                i <= self.snapshots.len(),
                snapshot_views(out@) == self@.snapshots.take(i as int),
            decreases self.snapshots.len() - i,
        {
            let ghost before = snapshot_views(out@);
            out.push(self.snapshots[i].clone());
            assert(snapshot_views(out@) =~= before.push(self@.snapshots[i as int]));
            i = i + 1;
            assert(self@.snapshots.take(i as int) =~= before.push(self@.snapshots[i - 1]));
        }
        assert(self@.snapshots.take(i as int) =~= self@.snapshots);
        out
    }

    /// How many system snapshots there are.
    pub fn snapshot_count(&self) -> (r: usize)
        ensures
            r == self@.snapshots.len(),
    {
        self.snapshots.len()
    }

    /// How many scan records there are.
    pub fn scan_count(&self) -> (r: usize)
        ensures
            r == self@.scans.len(),
    {
        self.scan_records.len()
    }

    /// Get transaction records filtered by scenario.
    pub fn get_transactions_for_scenario(&self, scenario: &str) -> (r: Vec<TransactionRecord>)
        ensures
            record_views(r@) == self@.transactions.filter(
                |t: TransactionRecordView| t.scenario == scenario@,
            ),
    {
        let ghost keep = |t: TransactionRecordView| t.scenario == scenario@;
        let mut out: Vec<TransactionRecord> = Vec::new();
        let mut i: usize = 0;
        reveal(Seq::filter);
        assert(record_views(out@) =~= self@.transactions.take(0).filter(keep));
        while i < self.transactions.len()
            invariant
                i <= self.transactions.len(),
                keep == (|t: TransactionRecordView| t.scenario == scenario@),
                record_views(out@) == self@.transactions.take(i as int).filter(keep),
            decreases self.transactions.len() - i,
        {
            let ghost before = record_views(out@);
            let ghost next = self@.transactions.take(i + 1);
            proof {
                reveal(Seq::filter);
                assert(next.drop_last() =~= self@.transactions.take(i as int));
                assert(next.last() == self.transactions@[i as int]@);
            }
            if str_eq(self.transactions[i].scenario.as_str(), scenario) {
                out.push(self.transactions[i].clone());
                assert(record_views(out@) =~= before.push(next.last()));
            }
            i = i + 1;
        }
        assert(self@.transactions.take(i as int) =~= self@.transactions);
        out
    }
}

/// How many of the numbers are below `v`.
pub open spec fn count_below(s: Seq<u64>, v: u64) -> nat
    decreases s.len(),
{
    if s.len() == 0 {
        0
    } else {
        count_below(s.drop_last(), v) + if s.last() < v {
            1nat
        } else {
            0nat
        }
    }
}

/// How many of the numbers are `v` or below.
pub open spec fn count_up_to(s: Seq<u64>, v: u64) -> nat
    decreases s.len(),
{
    if s.len() == 0 {
        0
    } else {
        count_up_to(s.drop_last(), v) + if s.last() <= v {
            1nat
        } else {
            0nat
        }
    }
}

/// `v` stands at place `k`, counted from 0, when the numbers are put in
/// ascending order.
pub open spec fn has_rank(s: Seq<u64>, k: int, v: u64) -> bool {
    count_below(s, v) <= k < count_up_to(s, v)
}

proof fn lemma_count_add(a: Seq<u64>, b: Seq<u64>, v: u64)
    ensures
        count_below(a + b, v) == count_below(a, v) + count_below(b, v),
        count_up_to(a + b, v) == count_up_to(a, v) + count_up_to(b, v),
    decreases b.len(),
{
    if b.len() == 0 {
        assert(a + b =~= a);
    } else {
        assert((a + b).drop_last() =~= a + b.drop_last());
        lemma_count_add(a, b.drop_last(), v);
    }
}

proof fn lemma_count_bounds(s: Seq<u64>, v: u64)
    ensures
        count_below(s, v) <= count_up_to(s, v) <= s.len(),
        (forall|i: int| 0 <= i < s.len() ==> s[i] <= v) ==> count_up_to(s, v) == s.len(),
        (forall|i: int| 0 <= i < s.len() ==> s[i] >= v) ==> count_below(s, v) == 0,
    decreases s.len(),
{
    if s.len() > 0 {
        lemma_count_bounds(s.drop_last(), v);
        assert(forall|i: int| 0 <= i < s.len() - 1 ==> s.drop_last()[i] == s[i]);
    }
}

proof fn lemma_count_insert(s: Seq<u64>, i: int, x: u64, v: u64)
    requires
        0 <= i <= s.len(),
    ensures
        count_below(s.insert(i, x), v) == count_below(s.push(x), v),
        count_up_to(s.insert(i, x), v) == count_up_to(s.push(x), v),
{
    let a = s.take(i);
    let b = s.skip(i);
    assert(s =~= a + b);
    assert(s.insert(i, x) =~= (a + seq![x]) + b);
    assert(s.push(x) =~= (a + b) + seq![x]);
    lemma_count_add(a + seq![x], b, v);
    lemma_count_add(a, seq![x], v);
    lemma_count_add(a, b, v);
    lemma_count_add(a + b, seq![x], v);
}

/// The numbers stand in ascending order.
pub open spec fn ascending(s: Seq<u64>) -> bool {
    forall|i: int, j: int| 0 <= i <= j < s.len() ==> s[i] <= s[j]
}

/// The same numbers as often as before.
pub open spec fn same_counts(a: Seq<u64>, b: Seq<u64>) -> bool {
    &&& a.len() == b.len()
    &&& forall|v: u64| #[trigger] count_below(a, v) == count_below(b, v)
    &&& forall|v: u64| #[trigger] count_up_to(a, v) == count_up_to(b, v)
}

proof fn lemma_count_step(a: Seq<u64>, b: Seq<u64>, i: int, x: u64, v: u64)
    requires
        0 <= i <= a.len(),
        same_counts(a, b),
    ensures
        count_below(a.insert(i, x), v) == count_below(b.push(x), v),
        count_up_to(a.insert(i, x), v) == count_up_to(b.push(x), v),
{
    lemma_count_insert(a, i, x, v);
    assert(a.push(x).drop_last() =~= a);
    assert(b.push(x).drop_last() =~= b);
    assert(count_below(a, v) == count_below(b, v));
    assert(count_up_to(a, v) == count_up_to(b, v));
}

/// Puts numbers in ascending order.
pub fn sorted(values: &Vec<u64>) -> (r: Vec<u64>)
    ensures
        ascending(r@),
        same_counts(r@, values@),
{
    let mut out: Vec<u64> = Vec::new();
    let mut i: usize = 0;
    assert(values@.take(0) =~= out@);
    while i < values.len()
        invariant
            i <= values.len(),
            ascending(out@),
            same_counts(out@, values@.take(i as int)),
        decreases values.len() - i,
    {
        let x: u64 = values[i];
        let mut k: usize = out.len();
        while k > 0 && out[k - 1] > x
            invariant
                k <= out.len(),
                forall|j: int| k <= j < out.len() ==> out@[j] > x,
            decreases k,
        {
            k = k - 1;
        }
        let ghost before = out@;
        proof {
            assert(values@.take(i + 1) =~= values@.take(i as int).push(x));
            assert forall|v: u64| #[trigger]
                count_below(before.insert(k as int, x), v) == count_below(values@.take(i + 1), v) by {
                lemma_count_step(before, values@.take(i as int), k as int, x, v);
            }
            assert forall|v: u64| #[trigger]
                count_up_to(before.insert(k as int, x), v) == count_up_to(values@.take(i + 1), v) by {
                lemma_count_step(before, values@.take(i as int), k as int, x, v);
            }
        }
        out.insert(k, x);
        assert(out@ == before.insert(k as int, x));
        assert(ascending(out@)) by {
            assert forall|a: int, b: int| 0 <= a <= b < out@.len() implies out@[a] <= out@[b] by {
                if k > 0 {
                    assert(before[k - 1] <= x);
                }
            }
        }
        i = i + 1;
    }
    assert(values@.take(i as int) =~= values@);
    out
}

/// In ascending order the number at an index has that rank.
proof fn lemma_rank_of_index(sorted: Seq<u64>, s: Seq<u64>, k: int)
    requires
        ascending(sorted),
        same_counts(sorted, s),
        0 <= k < sorted.len(),
    ensures
        has_rank(s, k, sorted[k]),
{
    let v = sorted[k];
    let a = sorted.take(k);
    let b = sorted.skip(k);
    assert(sorted =~= a + b);
    lemma_count_add(a, b, v);
    lemma_count_bounds(a, v);
    lemma_count_bounds(b, v);
    assert(count_below(b, v) == 0);
    let c = sorted.take(k + 1);
    let d = sorted.skip(k + 1);
    assert(sorted =~= c + d);
    lemma_count_add(c, d, v);
    lemma_count_bounds(c, v);
    assert(count_up_to(c, v) == k + 1);
    assert(count_below(s, v) == count_below(sorted, v));
    assert(count_up_to(s, v) == count_up_to(sorted, v));
}

proof fn lemma_counts_cross(s: Seq<u64>, v: u64, w: u64)
    requires
        v < w,
    ensures
        count_up_to(s, v) <= count_below(s, w),
    decreases s.len(),
{
    if s.len() > 0 {
        lemma_counts_cross(s.drop_last(), v, w);
    }
}

/// At most one number has a given rank.
pub proof fn law_rank_unique(s: Seq<u64>, k: int, v: u64, w: u64)
    requires
        has_rank(s, k, v),
        has_rank(s, k, w),
    ensures
        v == w,
{
    if v < w {
        lemma_counts_cross(s, v, w);
    } else if w < v {
        lemma_counts_cross(s, w, v);
    }
}

/// Summary statistics for a scenario run.
///
/// The error rate is `error_count` over `total_count`, and the throughput is
/// `accepted_count` over `wall_clock_secs`.
#[derive(Clone, Copy, Debug, PartialEq, Eq, Structural)]
pub struct ScenarioStats {
    pub total_count: usize,
    pub accepted_count: usize,
    pub error_count: usize,
    pub wall_clock_secs: u64,
    pub latency_p50_ms: u64,
    pub latency_p95_ms: u64,
    pub latency_p99_ms: u64,
    pub avg_latency_ms: u64,
    pub total_fees: u64,
}

/// The statistics of no records.
pub open spec fn no_stats() -> ScenarioStats {
    ScenarioStats {
        total_count: 0,
        accepted_count: 0,
        error_count: 0,
        wall_clock_secs: 0,
        latency_p50_ms: 0,
        latency_p95_ms: 0,
        latency_p99_ms: 0,
        avg_latency_ms: 0,
        total_fees: 0,
    }
}

/// The accepted records, in order.
pub open spec fn accepted_of(s: Seq<TransactionRecordView>) -> Seq<TransactionRecordView> {
    s.filter(|r: TransactionRecordView| r.accepted)
}

/// The durations of a list of records.
pub open spec fn durations_of(s: Seq<TransactionRecordView>) -> Seq<u64> {
    s.map_values(|r: TransactionRecordView| r.duration_ms)
}

/// The earliest start among the records.
pub open spec fn earliest_start(s: Seq<TransactionRecordView>) -> int
    decreases s.len(),
{
    if s.len() <= 1 {
        s[0].start_time.instant()
    } else {
        let rest = earliest_start(s.drop_last());
        if s.last().start_time.instant() < rest {
            s.last().start_time.instant()
        } else {
            rest
        }
    }
}

/// The latest end among the records.
pub open spec fn latest_end(s: Seq<TransactionRecordView>) -> int
    decreases s.len(),
{
    if s.len() <= 1 {
        s[0].end_time.instant()
    } else {
        let rest = latest_end(s.drop_last());
        if s.last().end_time.instant() > rest {
            s.last().end_time.instant()
        } else {
            rest
        }
    }
}

/// Every time in the records is one that the calendar can hold.
pub open spec fn times_wf(s: Seq<TransactionRecordView>) -> bool {
    forall|i: int|
        #![trigger s[i]]
        0 <= i < s.len() ==> s[i].start_time.wf() && s[i].end_time.wf()
}

/// Whole seconds from the first start to the last end, at least one.
pub open spec fn wall_clock(s: Seq<TransactionRecordView>) -> int {
    let span = whole_secs(latest_end(s) - earliest_start(s));
    if span < 1 {
        1
    } else {
        span
    }
}

/// What is asked of the statistics of one or more records.
pub open spec fn stats_hold(s: Seq<TransactionRecordView>, r: ScenarioStats) -> bool {
    let accepted = accepted_of(s);
    let durations = durations_of(accepted);
    let n = accepted.len() as int;
    &&& r.total_count == s.len()
    &&& r.accepted_count == n
    &&& r.error_count == s.len() - n
    &&& r.wall_clock_secs == wall_clock(s)
    &&& r.total_fees == fee_sum(accepted)
    &&& n == 0 ==> r.latency_p50_ms == 0 && r.latency_p95_ms == 0 && r.latency_p99_ms == 0 && r.avg_latency_ms == 0
    &&& n > 0 ==> {
        &&& has_rank(durations, n * 50 / 100, r.latency_p50_ms)
        &&& has_rank(durations, n * 95 / 100, r.latency_p95_ms)
        &&& has_rank(durations, n * 99 / 100, r.latency_p99_ms)
        &&& r.avg_latency_ms == duration_sum(accepted) / n as nat
    }
}

/// What the statistics of records are, if there are any records or not.
pub open spec fn summarizes(s: Seq<TransactionRecordView>, r: ScenarioStats) -> bool {
    if s.len() == 0 {
        r == no_stats()
    } else {
        stats_hold(s, r)
    }
}

/// Records have one summary.
pub proof fn law_one_summary(s: Seq<TransactionRecordView>, a: ScenarioStats, b: ScenarioStats)
    requires
        summarizes(s, a),
        summarizes(s, b),
    ensures
        a == b,
{
    let durations = durations_of(accepted_of(s));
    let n = accepted_of(s).len() as int;
    if s.len() > 0 && n > 0 {
        law_rank_unique(durations, n * 50 / 100, a.latency_p50_ms, b.latency_p50_ms);
        law_rank_unique(durations, n * 95 / 100, a.latency_p95_ms, b.latency_p95_ms);
        law_rank_unique(durations, n * 99 / 100, a.latency_p99_ms, b.latency_p99_ms);
    }
}

proof fn lemma_sums_add(a: Seq<TransactionRecordView>, b: Seq<TransactionRecordView>)
    ensures
        fee_sum(a + b) == fee_sum(a) + fee_sum(b),
        duration_sum(a + b) == duration_sum(a) + duration_sum(b),
        durations_of(a + b) == durations_of(a) + durations_of(b),
        accepted_of(a + b) == accepted_of(a) + accepted_of(b),
    decreases b.len(),
{
    Seq::filter_distributes_over_add(a, b, |r: TransactionRecordView| r.accepted);
    assert(durations_of(a + b) =~= durations_of(a) + durations_of(b));
    if b.len() == 0 {
        assert(a + b =~= a);
    } else {
        assert((a + b).drop_last() =~= a + b.drop_last());
        lemma_sums_add(a, b.drop_last());
    }
}

/// What one record adds to the sums and counts that a summary is drawn from.
proof fn lemma_one_record_adds(s: Seq<TransactionRecordView>, i: int, v: u64)
    requires
        0 <= i < s.len(),
    ensures
        accepted_of(s).len() == accepted_of(s.remove(i)).len() + accepted_of(seq![s[i]]).len(),
        fee_sum(accepted_of(s)) == fee_sum(accepted_of(s.remove(i))) + fee_sum(
            accepted_of(seq![s[i]]),
        ),
        duration_sum(accepted_of(s)) == duration_sum(accepted_of(s.remove(i))) + duration_sum(
            accepted_of(seq![s[i]]),
        ),
        count_below(durations_of(accepted_of(s)), v) == count_below(
            durations_of(accepted_of(s.remove(i))),
            v,
        ) + count_below(durations_of(accepted_of(seq![s[i]])), v),
        count_up_to(durations_of(accepted_of(s)), v) == count_up_to(
            durations_of(accepted_of(s.remove(i))),
            v,
        ) + count_up_to(durations_of(accepted_of(seq![s[i]])), v),
{
    let a = s.take(i);
    let x = seq![s[i]];
    let b = s.skip(i + 1);
    assert(s =~= (a + x) + b);
    assert(s.remove(i) =~= a + b);
    lemma_sums_add(a + x, b);
    lemma_sums_add(a, x);
    lemma_sums_add(a, b);
    lemma_sums_add(accepted_of(a) + accepted_of(x), accepted_of(b));
    lemma_sums_add(accepted_of(a), accepted_of(x));
    lemma_sums_add(accepted_of(a), accepted_of(b));
    let da = durations_of(accepted_of(a));
    let dx = durations_of(accepted_of(x));
    let db = durations_of(accepted_of(b));
    lemma_count_add(da + dx, db, v);
    lemma_count_add(da, dx, v);
    lemma_count_add(da, db, v);
}

proof fn lemma_reordered_sums(
    s: Seq<TransactionRecordView>,
    t: Seq<TransactionRecordView>,
    v: u64,
)
    requires
        s.to_multiset() == t.to_multiset(),
    ensures
        s.len() == t.len(),
        accepted_of(s).len() == accepted_of(t).len(),
        fee_sum(accepted_of(s)) == fee_sum(accepted_of(t)),
        duration_sum(accepted_of(s)) == duration_sum(accepted_of(t)),
        count_below(durations_of(accepted_of(s)), v) == count_below(
            durations_of(accepted_of(t)),
            v,
        ),
        count_up_to(durations_of(accepted_of(s)), v) == count_up_to(
            durations_of(accepted_of(t)),
            v,
        ),
    decreases t.len(),
{
    s.to_multiset_ensures();
    t.to_multiset_ensures();
    if t.len() == 0 {
        assert(s =~= t);
    } else {
        let j = t.len() - 1;
        let x = t[j];
        assert(t.contains(x));
        assert(s.to_multiset().count(x) > 0);
        let i = choose|i: int| 0 <= i < s.len() && s[i] == x;
        lemma_reordered_sums(s.remove(i), t.remove(j), v);
        lemma_one_record_adds(s, i, v);
        lemma_one_record_adds(t, j, v);
    }
}

proof fn lemma_first_and_last(s: Seq<TransactionRecordView>)
    requires
        s.len() > 0,
    ensures
        exists|i: int| 0 <= i < s.len() && (#[trigger] s[i]).start_time.instant() == earliest_start(s),
        exists|i: int| 0 <= i < s.len() && (#[trigger] s[i]).end_time.instant() == latest_end(s),
        forall|i: int| 0 <= i < s.len() ==> earliest_start(s) <= (#[trigger] s[i]).start_time.instant(),
        forall|i: int| 0 <= i < s.len() ==> (#[trigger] s[i]).end_time.instant() <= latest_end(s),
    decreases s.len(),
{
    let d = s.drop_last();
    if s.len() == 1 {
        assert(s[0].start_time.instant() == earliest_start(s));
        assert(s[0].end_time.instant() == latest_end(s));
    } else {
        lemma_first_and_last(d);
        let i = choose|i: int|
            0 <= i < d.len() && (#[trigger] d[i]).start_time.instant() == earliest_start(d);
        let j = choose|j: int|
            0 <= j < d.len() && (#[trigger] d[j]).end_time.instant() == latest_end(d);
        assert(s[i] == d[i]);
        assert(s[j] == d[j]);
        assert(s[s.len() - 1] == s.last());
        assert forall|k: int| 0 <= k < s.len() implies earliest_start(s) <= (
        #[trigger] s[k]).start_time.instant() && s[k].end_time.instant() <= latest_end(s) by {
            if k < d.len() {
                assert(d[k] == s[k]);
            }
        }
    }
}

proof fn lemma_reordered_span(s: Seq<TransactionRecordView>, t: Seq<TransactionRecordView>)
    requires
        s.to_multiset() == t.to_multiset(),
        s.len() > 0,
        t.len() > 0,
    ensures
        earliest_start(s) <= earliest_start(t),
        latest_end(s) >= latest_end(t),
{
    s.to_multiset_ensures();
    t.to_multiset_ensures();
    lemma_first_and_last(s);
    lemma_first_and_last(t);
    let i = choose|i: int|
        0 <= i < t.len() && (#[trigger] t[i]).start_time.instant() == earliest_start(t);
    let j = choose|j: int|
        0 <= j < t.len() && (#[trigger] t[j]).end_time.instant() == latest_end(t);
    assert(t.contains(t[i]));
    assert(t.contains(t[j]));
    assert(s.to_multiset().count(t[i]) > 0);
    assert(s.to_multiset().count(t[j]) > 0);
    let k = choose|k: int| 0 <= k < s.len() && s[k] == t[i];
    let l = choose|l: int| 0 <= l < s.len() && s[l] == t[j];
    assert(earliest_start(s) <= s[k].start_time.instant());
    assert(s[l].end_time.instant() <= latest_end(s));
}

/// The order in which records stand has no part in their summary.
pub proof fn law_order_changes_no_summary(
    s: Seq<TransactionRecordView>,
    t: Seq<TransactionRecordView>,
    r: ScenarioStats,
)
    requires
        s.to_multiset() == t.to_multiset(),
    ensures
        summarizes(s, r) <==> summarizes(t, r),
{
    lemma_reordered_sums(s, t, r.latency_p50_ms);
    lemma_reordered_sums(s, t, r.latency_p95_ms);
    lemma_reordered_sums(s, t, r.latency_p99_ms);
    if s.len() > 0 {
        lemma_reordered_span(s, t);
        lemma_reordered_span(t, s);
    }
}

/// A rejected record more, wherever it stands, is one record and one error
/// more: what is told of the accepted ones stays as it was, and the error rate
/// does not fall.
pub proof fn law_rejected_record_adds_an_error(
    s: Seq<TransactionRecordView>,
    i: int,
    rejected: TransactionRecordView,
    before: ScenarioStats,
    after: ScenarioStats,
)
    requires
        0 <= i <= s.len(),
        !rejected.accepted,
        summarizes(s, before),
        summarizes(s.insert(i, rejected), after),
    ensures
        after.total_count == before.total_count + 1,
        after.error_count == before.error_count + 1,
        after.accepted_count + after.error_count == after.total_count,
        after.accepted_count == before.accepted_count,
        after.latency_p50_ms == before.latency_p50_ms,
        after.latency_p95_ms == before.latency_p95_ms,
        after.latency_p99_ms == before.latency_p99_ms,
        after.avg_latency_ms == before.avg_latency_ms,
        after.total_fees == before.total_fees,
        before.error_count * after.total_count <= after.error_count * before.total_count,
{
    let t = s.insert(i, rejected);
    let a = s.take(i);
    let x = seq![rejected];
    let b = s.skip(i);
    assert(s =~= a + b);
    assert(t =~= (a + x) + b);
    lemma_sums_add(a, b);
    lemma_sums_add(a + x, b);
    lemma_sums_add(a, x);
    reveal(Seq::filter);
    assert(x.drop_last() =~= Seq::empty());
    assert(accepted_of(x.drop_last()) =~= Seq::empty());
    assert(accepted_of(x) =~= Seq::empty());
    assert(accepted_of(t) =~= accepted_of(s));
    let durations = durations_of(accepted_of(s));
    let n = accepted_of(s).len() as int;
    if s.len() == 0 {
        assert(accepted_of(s) =~= Seq::empty());
        assert(fee_sum(accepted_of(s)) == 0);
    } else if n > 0 {
        law_rank_unique(durations, n * 50 / 100, before.latency_p50_ms, after.latency_p50_ms);
        law_rank_unique(durations, n * 95 / 100, before.latency_p95_ms, after.latency_p95_ms);
        law_rank_unique(durations, n * 99 / 100, before.latency_p99_ms, after.latency_p99_ms);
    }
    let e = before.error_count as int;
    let c = before.total_count as int;
    assert(e * (c + 1) <= (e + 1) * c) by (nonlinear_arith)
        requires
            e <= c,
    ;
}

/// The percentiles of a summary rise with their rank, and every record is
/// either accepted or an error.
pub proof fn law_percentiles_rise(s: Seq<TransactionRecordView>, r: ScenarioStats)
    requires
        s.len() > 0,
        stats_hold(s, r),
    ensures
        r.latency_p50_ms <= r.latency_p95_ms <= r.latency_p99_ms,
        r.accepted_count + r.error_count == r.total_count,
        r.wall_clock_secs >= 1,
{
    let durations = durations_of(accepted_of(s));
    let n = accepted_of(s).len() as int;
    if n > 0 {
        if r.latency_p95_ms < r.latency_p50_ms {
            lemma_counts_cross(durations, r.latency_p95_ms, r.latency_p50_ms);
        }
        if r.latency_p99_ms < r.latency_p95_ms {
            lemma_counts_cross(durations, r.latency_p99_ms, r.latency_p95_ms);
        }
    }
}

proof fn lemma_sums_of_prefix(s: Seq<TransactionRecordView>, i: int)
    requires
        0 <= i <= s.len(),
    ensures
        fee_sum(accepted_of(s.take(i))) <= fee_sum(accepted_of(s)),
        duration_sum(accepted_of(s.take(i))) <= duration_sum(accepted_of(s)),
    decreases s.len() - i,
{
    if i == s.len() {
        assert(s.take(i) =~= s);
    } else {
        lemma_sums_of_prefix(s, i + 1);
        let next = s.take(i + 1);
        assert(next.drop_last() =~= s.take(i));
        reveal(Seq::filter);
        let a = accepted_of(s.take(i));
        assert(a.push(next.last()).drop_last() =~= a);
    }
}

impl MetricsCollector {
    /// Calculate summary stats for a set of transaction records.
    pub fn calculate_stats(records: &Vec<TransactionRecord>) -> (r: ScenarioStats)
        requires
            times_wf(record_views(records@)),
            records.len() * 99 <= usize::MAX,
            fee_sum(accepted_of(record_views(records@))) <= u64::MAX,
            duration_sum(accepted_of(record_views(records@))) <= u64::MAX,
        ensures
            summarizes(record_views(records@), r),
    {
        if records.len() == 0 {
            return ScenarioStats {
                total_count: 0,
                accepted_count: 0,
                error_count: 0,
                wall_clock_secs: 0,
                latency_p50_ms: 0,
                latency_p95_ms: 0,
                latency_p99_ms: 0,
                avg_latency_ms: 0,
                total_fees: 0,
            };
        }
        let ghost views = record_views(records@);
        let mut durations: Vec<u64> = Vec::new();
        let mut total_duration: u64 = 0;
        let mut total_fees: u64 = 0;
        let mut first: Timestamp = records[0].start_time;
        let mut last: Timestamp = records[0].end_time;
        let mut i: usize = 0;
        proof {
            assert(views[0] == records@[0]@);
            reveal(Seq::filter);
            assert(views.take(0) =~= Seq::empty());
            assert(durations@ =~= durations_of(accepted_of(views.take(0))));
        }
        while i < records.len()
            invariant
                i <= records.len(),
                views == record_views(records@),
                records.len() > 0,
                times_wf(views),
                first.wf(),
                last.wf(),
                fee_sum(accepted_of(views)) <= u64::MAX,
                duration_sum(accepted_of(views)) <= u64::MAX,
                durations@ == durations_of(accepted_of(views.take(i as int))),
                durations.len() <= i,
                total_duration == duration_sum(accepted_of(views.take(i as int))),
                total_fees == fee_sum(accepted_of(views.take(i as int))),
                i == 0 ==> first == records@[0].start_time && last == records@[0].end_time,
                i > 0 ==> first.instant() == earliest_start(views.take(i as int)),
                i > 0 ==> last.instant() == latest_end(views.take(i as int)),
            decreases records.len() - i,
        {
            let ghost next = views.take(i + 1);
            let ghost acc = accepted_of(views.take(i as int));
            proof {
                lemma_sums_of_prefix(views, i + 1);
                assert(next.drop_last() =~= views.take(i as int));
                assert(next.last() == records@[i as int]@);
                assert(views[i as int] == records@[i as int]@);
                reveal(Seq::filter);
                assert(acc.push(next.last()).drop_last() =~= acc);
                assert(durations_of(acc.push(next.last())) =~= durations_of(acc).push(
                    next.last().duration_ms,
                ));
            }
            if records[i].accepted {
                durations.push(records[i].duration_ms);
                total_duration = total_duration + records[i].duration_ms;
                if let Some(fee) = records[i].fee {
                    total_fees = total_fees + fee;
                }
            }
            if records[i].start_time.is_before(first) {
                first = records[i].start_time;
            }
            if last.is_before(records[i].end_time) {
                last = records[i].end_time;
            }
            i = i + 1;
        }
        assert(views.take(i as int) =~= views);
        let span: i64 = seconds_between(first, last);
        let wall_clock_secs: u64 = if span < 1 {
            1
        } else {
            span as u64
        };
        let n: usize = durations.len();
        let sorted_durations = sorted(&durations);
        let mut latency_p50_ms: u64 = 0;
        let mut latency_p95_ms: u64 = 0;
        let mut latency_p99_ms: u64 = 0;
        let mut avg_latency_ms: u64 = 0;
        if n > 0 {
            let k50: usize = n * 50 / 100;
            let k95: usize = n * 95 / 100;
            let k99: usize = n * 99 / 100;
            proof {
                lemma_rank_of_index(sorted_durations@, durations@, k50 as int);
                lemma_rank_of_index(sorted_durations@, durations@, k95 as int);
                lemma_rank_of_index(sorted_durations@, durations@, k99 as int);
            }
            latency_p50_ms = sorted_durations[k50];
            latency_p95_ms = sorted_durations[k95];
            latency_p99_ms = sorted_durations[k99];
            avg_latency_ms = total_duration / n as u64;
        }
        ScenarioStats {
            total_count: records.len(),
            accepted_count: n,
            error_count: records.len() - n,
            wall_clock_secs,
            latency_p50_ms,
            latency_p95_ms,
            latency_p99_ms,
            avg_latency_ms,
            total_fees,
        }
    }
}

// ---------------------------------------------------------------------------
// What the summary of records tells of them
// ---------------------------------------------------------------------------

/// The wall clock of a summary is the time that its records span. No record
/// ends a whole second beyond it after another one has begun, and where the
/// records span a second or more, some record ends no less than it after some
/// record has begun. Records that span less count as one second.
pub proof fn law_wall_clock_spans_the_records(records: Vec<TransactionRecord>, r: ScenarioStats)
    requires
        call_ensures(MetricsCollector::calculate_stats, (&records,), r),
        records.len() > 0,
    ensures
        r.wall_clock_secs >= 1,
        forall|i: int, j: int|
            #![trigger records@[i], records@[j]]
            0 <= i < records.len() && 0 <= j < records.len() ==> (records@[i].end_time.secs
                - records@[j].start_time.secs) * 1_000_000_000 + records@[i].end_time.nanos
                - records@[j].start_time.nanos < (r.wall_clock_secs + 1) * 1_000_000_000,
        r.wall_clock_secs > 1 ==> exists|i: int, j: int|
            #![trigger records@[i], records@[j]]
            0 <= i < records.len() && 0 <= j < records.len() && (records@[i].end_time.secs
                - records@[j].start_time.secs) * 1_000_000_000 + records@[i].end_time.nanos
                - records@[j].start_time.nanos >= r.wall_clock_secs * 1_000_000_000,
{
    let s = record_views(records@);
    assert(forall|i: int| 0 <= i < s.len() ==> #[trigger] s[i] == records@[i]@);
    lemma_first_and_last(s);
    let i = choose|i: int|
        0 <= i < s.len() && (#[trigger] s[i]).end_time.instant() == latest_end(s);
    let j = choose|j: int|
        0 <= j < s.len() && (#[trigger] s[j]).start_time.instant() == earliest_start(s);
    assert(records@[i].end_time == s[i].end_time);
    assert(records@[j].start_time == s[j].start_time);
    assert forall|k: int, l: int|
        #![trigger records@[k], records@[l]]
        0 <= k < records.len() && 0 <= l < records.len() implies (records@[k].end_time.secs
        - records@[l].start_time.secs) * 1_000_000_000 + records@[k].end_time.nanos
        - records@[l].start_time.nanos < (r.wall_clock_secs + 1) * 1_000_000_000 by {
        assert(s[k].end_time.instant() <= latest_end(s));
        assert(earliest_start(s) <= s[l].start_time.instant());
    }
}

/// How many records a summary counts, accepts and finds in error. Without
/// records there is no time that they span.
pub proof fn law_summary_counts_each_record_once(
    records: Vec<TransactionRecord>,
    r: ScenarioStats,
)
    requires
        call_ensures(MetricsCollector::calculate_stats, (&records,), r),
    ensures
        r.total_count == records.len(),
        r.accepted_count == records@.filter(|t: TransactionRecord| t.accepted).len(),
        r.error_count == records@.filter(|t: TransactionRecord| !t.accepted).len(),
        records.len() == 0 ==> r.wall_clock_secs == 0,
{
    lemma_of_accepted(records@, 0);
    lemma_accepted_or_not(records@);
}

/// The fees of a summary are those of its accepted records, added up.
pub proof fn law_summary_adds_up_accepted_fees(records: Vec<TransactionRecord>, r: ScenarioStats)
    requires
        call_ensures(MetricsCollector::calculate_stats, (&records,), r),
    ensures
        r.total_fees == records@.filter(|t: TransactionRecord| t.accepted).fold_left(
            0int,
            |sum: int, t: TransactionRecord|
                match t.fee {
                    Some(fee) => sum + fee,
                    None => sum,
                },
        ),
{
    lemma_of_accepted(records@, 0);
}

/// The average latency of a summary, in whole milliseconds: so many times the
/// accepted records is what they took together, but for less than one
/// millisecond each. It lies between any bounds on what each of them took.
pub proof fn law_average_latency(
    records: Vec<TransactionRecord>,
    r: ScenarioStats,
    least: u64,
    most: u64,
)
    requires
        call_ensures(MetricsCollector::calculate_stats, (&records,), r),
        records@.filter(|t: TransactionRecord| t.accepted).len() > 0,
        forall|i: int|
            #![trigger records@[i]]
            0 <= i < records.len() && records@[i].accepted ==> least <= records@[i].duration_ms
                <= most,
    ensures
        ({
            let accepted = records@.filter(|t: TransactionRecord| t.accepted);
            let together = accepted.fold_left(
                0int,
                |sum: int, t: TransactionRecord| sum + t.duration_ms,
            );
            r.avg_latency_ms * accepted.len() <= together < (r.avg_latency_ms + 1)
                * accepted.len()
        }),
        least <= r.avg_latency_ms <= most,
{
    lemma_of_accepted(records@, 0);
    lemma_durations_lie_between(records@, least, most);
    let n = records@.filter(|t: TransactionRecord| t.accepted).len() as int;
    let sum = duration_sum(accepted_of(record_views(records@))) as int;
    let avg = r.avg_latency_ms as int;
    assert(accepted_of(record_views(records@)).len() == n);
    lemma_no_records_no_accepted(records@);
    assert(avg == sum / n);
    assert(avg * n <= sum < (avg + 1) * n) by (nonlinear_arith)
        requires
            avg == sum / n,
            n > 0,
    ;
    assert(least <= avg <= most) by (nonlinear_arith)
        requires
            avg * n <= sum < (avg + 1) * n,
            least * n <= sum <= most * n,
            n > 0,
    ;
}

/// Each percentile is the latency of an accepted record. Of the accepted
/// records no more than that part took less time, and more than that part took
/// no longer. Where no record was accepted there is nothing to tell.
pub proof fn law_percentiles_part_the_records(records: Vec<TransactionRecord>, r: ScenarioStats)
    requires
        call_ensures(MetricsCollector::calculate_stats, (&records,), r),
    ensures
        r.accepted_count == 0 ==> r.latency_p50_ms == 0 && r.latency_p95_ms == 0
            && r.latency_p99_ms == 0 && r.avg_latency_ms == 0 && r.total_fees == 0,
        r.accepted_count > 0 ==> {
            &&& 100 * records@.filter(
                |t: TransactionRecord| t.accepted && t.duration_ms < r.latency_p50_ms,
            ).len() <= 50 * r.accepted_count
            &&& 100 * records@.filter(
                |t: TransactionRecord| t.accepted && t.duration_ms <= r.latency_p50_ms,
            ).len() > 50 * r.accepted_count
            &&& 100 * records@.filter(
                |t: TransactionRecord| t.accepted && t.duration_ms < r.latency_p95_ms,
            ).len() <= 95 * r.accepted_count
            &&& 100 * records@.filter(
                |t: TransactionRecord| t.accepted && t.duration_ms <= r.latency_p95_ms,
            ).len() > 95 * r.accepted_count
            &&& 100 * records@.filter(
                |t: TransactionRecord| t.accepted && t.duration_ms < r.latency_p99_ms,
            ).len() <= 99 * r.accepted_count
            &&& 100 * records@.filter(
                |t: TransactionRecord| t.accepted && t.duration_ms <= r.latency_p99_ms,
            ).len() > 99 * r.accepted_count
        },
        r.accepted_count > 0 ==> {
            &&& exists|i: int|
                0 <= i < records.len() && (#[trigger] records@[i]).accepted
                    && records@[i].duration_ms == r.latency_p50_ms
            &&& exists|i: int|
                0 <= i < records.len() && (#[trigger] records@[i]).accepted
                    && records@[i].duration_ms == r.latency_p95_ms
            &&& exists|i: int|
                0 <= i < records.len() && (#[trigger] records@[i]).accepted
                    && records@[i].duration_ms == r.latency_p99_ms
        },
{
    lemma_no_records_no_accepted(records@);
    lemma_of_accepted(records@, r.latency_p50_ms);
    lemma_of_accepted(records@, r.latency_p95_ms);
    lemma_of_accepted(records@, r.latency_p99_ms);
    if r.accepted_count > 0 {
        lemma_some_took(records@, r.latency_p50_ms);
        lemma_some_took(records@, r.latency_p95_ms);
        lemma_some_took(records@, r.latency_p99_ms);
    }
}

proof fn lemma_no_records_no_accepted(s: Seq<TransactionRecord>)
    ensures
        s.len() == 0 ==> accepted_of(record_views(s)).len() == 0,
        accepted_of(record_views(s)).len() == 0 ==> fee_sum(accepted_of(record_views(s))) == 0,
{
    reveal(Seq::filter);
}

/// What is counted and added up over the contents of records is so over the
/// records.
proof fn lemma_of_accepted(s: Seq<TransactionRecord>, v: u64)
    ensures
        ({
            let accepted = s.filter(|t: TransactionRecord| t.accepted);
            let of = accepted_of(record_views(s));
            &&& of.len() == accepted.len()
            &&& fee_sum(of) == accepted.fold_left(
                0int,
                |sum: int, t: TransactionRecord|
                    match t.fee {
                        Some(fee) => sum + fee,
                        None => sum,
                    },
            )
            &&& duration_sum(of) == accepted.fold_left(
                0int,
                |sum: int, t: TransactionRecord| sum + t.duration_ms,
            )
            &&& count_below(durations_of(of), v) == s.filter(
                |t: TransactionRecord| t.accepted && t.duration_ms < v,
            ).len()
            &&& count_up_to(durations_of(of), v) == s.filter(
                |t: TransactionRecord| t.accepted && t.duration_ms <= v,
            ).len()
        }),
    decreases s.len(),
{
    reveal(Seq::filter);
    reveal(Seq::fold_left);
    if s.len() > 0 {
        let rest = s.drop_last();
        lemma_of_accepted(rest, v);
        let of = accepted_of(record_views(rest));
        let accepted = rest.filter(|t: TransactionRecord| t.accepted);
        assert(record_views(s).drop_last() =~= record_views(rest));
        assert(record_views(s).last() == s.last()@);
        if s.last().accepted {
            assert(of.push(s.last()@).drop_last() =~= of);
            assert(accepted.push(s.last()).drop_last() =~= accepted);
            assert(durations_of(of.push(s.last()@)) =~= durations_of(of).push(
                s.last().duration_ms,
            ));
            assert(durations_of(of).push(s.last().duration_ms).drop_last() =~= durations_of(of));
        }
    }
}

proof fn lemma_accepted_or_not(s: Seq<TransactionRecord>)
    ensures
        s.filter(|t: TransactionRecord| t.accepted).len() + s.filter(
            |t: TransactionRecord| !t.accepted,
        ).len() == s.len(),
    decreases s.len(),
{
    reveal(Seq::filter);
    if s.len() > 0 {
        lemma_accepted_or_not(s.drop_last());
    }
}

proof fn lemma_durations_lie_between(s: Seq<TransactionRecord>, least: u64, most: u64)
    requires
        forall|i: int|
            #![trigger s[i]]
            0 <= i < s.len() && s[i].accepted ==> least <= s[i].duration_ms <= most,
    ensures
        ({
            let n = s.filter(|t: TransactionRecord| t.accepted).len() as int;
            least * n <= duration_sum(accepted_of(record_views(s))) <= most * n
        }),
    decreases s.len(),
{
    reveal(Seq::filter);
    if s.len() > 0 {
        let rest = s.drop_last();
        assert forall|i: int|
            #![trigger rest[i]]
            0 <= i < rest.len() && rest[i].accepted implies least <= rest[i].duration_ms
            <= most by {
            assert(rest[i] == s[i]);
        }
        lemma_durations_lie_between(rest, least, most);
        let of = accepted_of(record_views(rest));
        assert(record_views(s).drop_last() =~= record_views(rest));
        assert(record_views(s).last() == s.last()@);
        let n = rest.filter(|t: TransactionRecord| t.accepted).len() as int;
        if s.last().accepted {
            assert(of.push(s.last()@).drop_last() =~= of);
            assert(s[s.len() - 1].accepted);
            assert(least * (n + 1) == least * n + least) by (nonlinear_arith);
            assert(most * (n + 1) == most * n + most) by (nonlinear_arith);
            assert(s.filter(|t: TransactionRecord| t.accepted).len() == n + 1);
            assert(duration_sum(accepted_of(record_views(s))) == duration_sum(of)
                + s.last().duration_ms);
        }
    } else {
        assert(accepted_of(record_views(s)).len() == 0);
        assert(s.filter(|t: TransactionRecord| t.accepted).len() == 0);
        assert(least * 0 == 0 && most * 0 == 0) by (nonlinear_arith);
    }
}

proof fn lemma_some_took(s: Seq<TransactionRecord>, v: u64)
    requires
        s.filter(|t: TransactionRecord| t.accepted && t.duration_ms < v).len() < s.filter(
            |t: TransactionRecord| t.accepted && t.duration_ms <= v,
        ).len(),
    ensures
        exists|i: int|
            0 <= i < s.len() && (#[trigger] s[i]).accepted && s[i].duration_ms == v,
    decreases s.len(),
{
    reveal(Seq::filter);
    if s.len() > 0 {
        let last = s[s.len() - 1];
        if last.accepted && last.duration_ms == v {
            assert(s[s.len() - 1].accepted);
        } else {
            let rest = s.drop_last();
            lemma_some_took(rest, v);
            let i = choose|i: int|
                0 <= i < rest.len() && (#[trigger] rest[i]).accepted && rest[i].duration_ms == v;
            assert(s[i] == rest[i]);
        }
    }
}

// ---------------------------------------------------------------------------
// What a collector gives back
// ---------------------------------------------------------------------------

/// Two records agree in every field.
pub open spec fn same_record(a: TransactionRecord, b: TransactionRecord) -> bool {
    &&& a.wallet@ == b.wallet@
    &&& a.scenario@ == b.scenario@
    &&& a.tx_id@ == b.tx_id@
    &&& a.start_time == b.start_time
    &&& a.end_time == b.end_time
    &&& a.duration_ms == b.duration_ms
    &&& a.accepted == b.accepted
    &&& match (a.error, b.error) {
        (Some(x), Some(y)) => x@ == y@,
        (None, None) => true,
        _ => false,
    }
    &&& a.amount == b.amount
    &&& a.fee == b.fee
    &&& a.tx_type@ == b.tx_type@
}

/// Two lists of records agree, place by place.
pub open spec fn same_records(a: Seq<TransactionRecord>, b: Seq<TransactionRecord>) -> bool {
    a.len() == b.len() && forall|i: int|
        0 <= i < a.len() ==> same_record(#[trigger] a[i], b[i])
}

proof fn lemma_same_record(a: TransactionRecord, b: TransactionRecord)
    requires
        a@ == b@,
    ensures
        same_record(a, b),
{
}

proof fn lemma_same_records(a: Seq<TransactionRecord>, b: Seq<TransactionRecord>)
    requires
        record_views(a) == record_views(b),
    ensures
        same_records(a, b),
{
    assert(record_views(a).len() == a.len());
    assert(record_views(b).len() == b.len());
    assert forall|i: int| 0 <= i < a.len() implies same_record(#[trigger] a[i], b[i]) by {
        assert(record_views(a)[i] == a[i]@);
        assert(record_views(b)[i] == b[i]@);
        lemma_same_record(a[i], b[i]);
    }
}

/// What is recorded is given back: one record more, in the last place and with
/// every field as it was handed in, and those before it unchanged. Of the
/// lists by scenario only that of the record's own scenario grows, by that
/// record. The fee total rises by the record's fee. Scans and snapshots are
/// not touched.
pub proof fn law_recorded_transaction_is_given_back(
    collector: &mut MetricsCollector,
    record: TransactionRecord,
    before: Vec<TransactionRecord>,
    after: Vec<TransactionRecord>,
    scenario: &str,
    picked_before: Vec<TransactionRecord>,
    picked_after: Vec<TransactionRecord>,
    fees_before: u64,
    fees_after: u64,
)
    requires
        call_ensures(MetricsCollector::record_transaction, (collector, record), ()),
        call_ensures(MetricsCollector::get_transactions, (&*old(collector),), before),
        call_ensures(MetricsCollector::get_transactions, (&*final(collector),), after),
        call_ensures(
            MetricsCollector::get_transactions_for_scenario,
            (&*old(collector), scenario),
            picked_before,
        ),
        call_ensures(
            MetricsCollector::get_transactions_for_scenario,
            (&*final(collector), scenario),
            picked_after,
        ),
        call_ensures(MetricsCollector::total_fees, (&*old(collector),), fees_before),
        call_ensures(MetricsCollector::total_fees, (&*final(collector),), fees_after),
    ensures
        after.len() == before.len() + 1,
        same_record(after@.last(), record),
        same_records(after@.drop_last(), before@),
        record.scenario@ == scenario@ ==> {
            &&& picked_after.len() == picked_before.len() + 1
            &&& same_record(picked_after@.last(), record)
            &&& same_records(picked_after@.drop_last(), picked_before@)
        },
        record.scenario@ != scenario@ ==> same_records(picked_after@, picked_before@),
        fees_after == match record.fee {
            Some(fee) => fees_before + fee,
            None => fees_before as int,
        },
        final(collector)@.scans == old(collector)@.scans,
        final(collector)@.snapshots == old(collector)@.snapshots,
{
    let s = old(collector)@.transactions;
    let t = final(collector)@.transactions;
    assert(t == s.push(record@));
    assert(t.drop_last() =~= s);
    assert(record_views(after@).len() == after.len());
    assert(record_views(before@).len() == before.len());
    assert(record_views(after@).last() == after@.last()@);
    lemma_same_record(after@.last(), record);
    assert(record_views(after@.drop_last()) =~= record_views(before@));
    lemma_same_records(after@.drop_last(), before@);
    reveal(Seq::filter);
    let keep = |r: TransactionRecordView| r.scenario == scenario@;
    assert(record_views(picked_before@) == s.filter(keep));
    assert(record_views(picked_after@) == t.filter(keep));
    assert(record_views(picked_after@).len() == picked_after.len());
    assert(record_views(picked_before@).len() == picked_before.len());
    if record.scenario@ == scenario@ {
        assert(t.filter(keep) == s.filter(keep).push(record@));
        assert(record_views(picked_after@).last() == picked_after@.last()@);
        lemma_same_record(picked_after@.last(), record);
        assert(record_views(picked_after@.drop_last()) =~= record_views(picked_after@).drop_last());
        assert(s.filter(keep).push(record@).drop_last() =~= s.filter(keep));
        lemma_same_records(picked_after@.drop_last(), picked_before@);
    } else {
        lemma_same_records(picked_after@, picked_before@);
    }
}

/// A new collector holds nothing.
pub proof fn law_new_collector_is_empty(
    collector: MetricsCollector,
    all: Vec<TransactionRecord>,
    scenario: &str,
    picked: Vec<TransactionRecord>,
    fees: u64,
    scans: Vec<ScanRecord>,
    snapshots: Vec<SystemSnapshot>,
)
    requires
        call_ensures(MetricsCollector::new, (), collector),
        call_ensures(MetricsCollector::get_transactions, (&collector,), all),
        call_ensures(
            MetricsCollector::get_transactions_for_scenario,
            (&collector, scenario),
            picked,
        ),
        call_ensures(MetricsCollector::total_fees, (&collector,), fees),
        call_ensures(MetricsCollector::get_scan_records, (&collector,), scans),
        call_ensures(MetricsCollector::get_snapshots, (&collector,), snapshots),
    ensures
        all.len() == 0,
        picked.len() == 0,
        fees == 0,
        scans.len() == 0,
        snapshots.len() == 0,
{
    assert(record_views(all@).len() == all.len());
    assert(record_views(picked@).len() == picked.len());
    assert(scan_views(scans@).len() == scans.len());
    assert(snapshot_views(snapshots@).len() == snapshots.len());
    reveal(Seq::filter);
}

/// A scan that is recorded is given back in the last place, with every field
/// as it was handed in, and those before it are unchanged. Transactions, fees
/// and snapshots are not touched.
pub proof fn law_recorded_scan_is_given_back(
    collector: &mut MetricsCollector,
    record: ScanRecord,
    before: Vec<ScanRecord>,
    after: Vec<ScanRecord>,
    count: usize,
)
    requires
        call_ensures(MetricsCollector::record_scan, (collector, record), ()),
        call_ensures(MetricsCollector::get_scan_records, (&*old(collector),), before),
        call_ensures(MetricsCollector::get_scan_records, (&*final(collector),), after),
        call_ensures(MetricsCollector::scan_count, (&*final(collector),), count),
    ensures
        after.len() == before.len() + 1,
        count == after.len(),
        ({
            let last = after@.last();
            &&& last.wallet@ == record.wallet@
            &&& last.scan_type@ == record.scan_type@
            &&& last.start_time == record.start_time
            &&& last.end_time == record.end_time
            &&& last.duration_ms == record.duration_ms
            &&& last.start_height == record.start_height
            &&& last.end_height == record.end_height
            &&& last.blocks_scanned == record.blocks_scanned
        }),
        forall|i: int| 0 <= i < before.len() ==> (#[trigger] after@[i])@ == before@[i]@,
        final(collector)@.transactions == old(collector)@.transactions,
        final(collector)@.snapshots == old(collector)@.snapshots,
{
    let s = old(collector)@.scans;
    assert(scan_views(after@).len() == after.len());
    assert(scan_views(before@).len() == before.len());
    assert(scan_views(after@).last() == after@.last()@);
    assert forall|i: int| 0 <= i < before.len() implies (#[trigger] after@[i])@ == before@[i]@ by {
        assert(scan_views(after@)[i] == after@[i]@);
        assert(scan_views(before@)[i] == before@[i]@);
    }
}

/// A snapshot that is recorded is given back in the last place, with every
/// field as it was handed in, and those before it are unchanged. Transactions,
/// fees and scans are not touched.
pub proof fn law_recorded_snapshot_is_given_back(
    collector: &mut MetricsCollector,
    snapshot: SystemSnapshot,
    before: Vec<SystemSnapshot>,
    after: Vec<SystemSnapshot>,
    count: usize,
)
    requires
        call_ensures(MetricsCollector::record_snapshot, (collector, snapshot), ()),
        call_ensures(MetricsCollector::get_snapshots, (&*old(collector),), before),
        call_ensures(MetricsCollector::get_snapshots, (&*final(collector),), after),
        call_ensures(MetricsCollector::snapshot_count, (&*final(collector),), count),
    ensures
        after.len() == before.len() + 1,
        count == after.len(),
        ({
            let last = after@.last();
            &&& last.timestamp == snapshot.timestamp
            &&& last.wallet@ == snapshot.wallet@
            &&& last.memory_rss_bytes == snapshot.memory_rss_bytes
            &&& last.cpu_percent_bits == snapshot.cpu_percent_bits
            &&& last.utxo_count == snapshot.utxo_count
            &&& last.balance_available == snapshot.balance_available
        }),
        forall|i: int| 0 <= i < before.len() ==> (#[trigger] after@[i])@ == before@[i]@,
        final(collector)@.transactions == old(collector)@.transactions,
        final(collector)@.scans == old(collector)@.scans,
{
    assert(snapshot_views(after@).len() == after.len());
    assert(snapshot_views(before@).len() == before.len());
    assert(snapshot_views(after@).last() == after@.last()@);
    assert forall|i: int| 0 <= i < before.len() implies (#[trigger] after@[i])@ == before@[i]@ by {
        assert(snapshot_views(after@)[i] == after@[i]@);
        assert(snapshot_views(before@)[i] == before@[i]@);
    }
}

/// The record of a send holds what was asked for, what came of it and when.
pub proof fn law_send_is_recorded_as_it_went(
    wallet: &str,
    scenario: &str,
    tx_type: &str,
    amount: u64,
    result: SendResult,
    timing: Timing,
    r: TransactionRecord,
)
    requires
        call_ensures(
            TransactionRecord::of_send,
            (wallet, scenario, tx_type, amount, &result, timing),
            r,
        ),
    ensures
        r.wallet@ == wallet@,
        r.scenario@ == scenario@,
        r.tx_type@ == tx_type@,
        r.amount == amount,
        r.tx_id@ == result.tx_id@,
        r.accepted == result.accepted,
        r.fee == result.fee,
        r.error is Some <==> result.error is Some,
        r.error is Some ==> r.error->Some_0@ == result.error->Some_0@,
        r.start_time == timing.start,
        r.end_time == timing.end,
        r.duration_ms == timing.duration_ms,
{
}

/// A fee still fits exactly where the total with it does; a record without a
/// fee always does.
pub proof fn law_fee_fits_under_the_total(
    collector: MetricsCollector,
    total: u64,
    fee: Option<u64>,
    r: bool,
)
    requires
        call_ensures(MetricsCollector::total_fees, (&collector,), total),
        call_ensures(MetricsCollector::can_record, (&collector, fee), r),
    ensures
        fee is None ==> r,
        fee matches Some(f) ==> (r <==> total + f <= u64::MAX),
{
}

/// Sorting puts the numbers in ascending order and keeps each as often as it
/// came up.
pub proof fn law_sorting_keeps_the_numbers(values: Vec<u64>, r: Vec<u64>, i: int, j: int, v: u64)
    requires
        call_ensures(sorted, (&values,), r),
        0 <= i <= j < r.len(),
    ensures
        r@[i] <= r@[j],
        r.len() == values.len(),
        r@.filter(|x: u64| x <= v).len() == values@.filter(|x: u64| x <= v).len(),
        r@.filter(|x: u64| x < v).len() == values@.filter(|x: u64| x < v).len(),
{
    lemma_counts_filter(r@, v);
    lemma_counts_filter(values@, v);
    assert(count_up_to(r@, v) == count_up_to(values@, v));
    assert(count_below(r@, v) == count_below(values@, v));
}

proof fn lemma_counts_filter(s: Seq<u64>, v: u64)
    ensures
        count_up_to(s, v) == s.filter(|x: u64| x <= v).len(),
        count_below(s, v) == s.filter(|x: u64| x < v).len(),
    decreases s.len(),
{
    reveal(Seq::filter);
    if s.len() > 0 {
        lemma_counts_filter(s.drop_last(), v);
    }
}

} // verus!
