//! Summaries of collected metrics, per scenario and wallet.
use vstd::prelude::*;
use vstd::string::*;

use super::recorder::{
    accepted_of, duration_sum, fee_sum, law_one_summary, record_views, same_record, same_records,
    stats_hold, times_wf, MetricsCollector, ScenarioStats, TransactionRecord, TransactionRecordView,
};
use crate::text::{
    lemma_text_lt_irreflexive, lemma_text_lt_total, lemma_text_lt_transitive, str_eq, str_lt,
    text_lt, texts,
};

verus! {

/// Generates reports from collected metrics.
pub struct Reporter;

/// A file of the report.
#[derive(Clone, Copy, Debug, PartialEq, Eq, Structural)]
pub enum ReportFile {
    Transactions,
    SystemSnapshots,
    Scans,
    Summary,
}

/// The name of a report file.
pub open spec fn file_name(file: ReportFile) -> Seq<char> {
    match file {
        ReportFile::Transactions => "transactions.csv"@,
        ReportFile::SystemSnapshots => "system_snapshots.csv"@,
        ReportFile::Scans => "scans.csv"@,
        ReportFile::Summary => "summary.csv"@,
    }
}

impl ReportFile {
    /// The name under which the file is written.
    pub fn name(self) -> (r: &'static str)
        ensures
            r@ == file_name(self),
    {
        match self {
            ReportFile::Transactions => "transactions.csv",
            ReportFile::SystemSnapshots => "system_snapshots.csv",
            ReportFile::Scans => "scans.csv",
            ReportFile::Summary => "summary.csv",
        }
    }
}

/// The files that a report consists of: snapshots and scans only where there
/// are any.
pub open spec fn report_files(any_snapshot: bool, any_scan: bool) -> Seq<ReportFile> {
    seq![ReportFile::Transactions] + (if any_snapshot {
        seq![ReportFile::SystemSnapshots]
    } else {
        Seq::empty()
    }) + (if any_scan {
        seq![ReportFile::Scans]
    } else {
        Seq::empty()
    }) + seq![ReportFile::Summary]
}

/// The columns of the summary file.
pub open spec fn summary_columns() -> Seq<Seq<char>> {
    seq![
        "scenario"@,
        "wallet"@,
        "total_txs"@,
        "accepted"@,
        "errors"@,
        "error_rate"@,
        "tps"@,
        "p50_ms"@,
        "p95_ms"@,
        "p99_ms"@,
        "avg_ms"@,
        "total_fees"@,
    ]
}

/// How one wallet did in one scenario.
#[derive(Debug)]
pub struct WalletSummary {
    pub wallet: String,
    pub stats: ScenarioStats,
}

/// How the wallets did in one scenario.
#[derive(Debug)]
pub struct ScenarioSummary {
    pub scenario: String,
    pub wallets: Vec<WalletSummary>,
}

/// A scenario has at least one record.
pub open spec fn occurs(txs: Seq<TransactionRecordView>, scenario: Seq<char>) -> bool {
    exists|i: int| 0 <= i < txs.len() && (#[trigger] txs[i]).scenario == scenario
}

/// The texts stand in strictly ascending order, so none twice.
pub open spec fn strictly_ascending(list: Seq<Seq<char>>) -> bool {
    forall|i: int, j: int| 0 <= i < j < list.len() ==> text_lt(list[i], list[j])
}

/// The list names each scenario that occurs, once, in ascending order.
pub open spec fn lists_scenarios(txs: Seq<TransactionRecordView>, list: Seq<Seq<char>>) -> bool {
    &&& strictly_ascending(list)
    &&& forall|x: Seq<char>| #[trigger] list.contains(x) <==> occurs(txs, x)
}

/// A list of scenarios names none twice.
pub proof fn law_scenarios_are_listed_once(
    txs: Seq<TransactionRecordView>,
    list: Seq<Seq<char>>,
)
    requires
        lists_scenarios(txs, list),
    ensures
        list.no_duplicates(),
{
    assert forall|i: int, j: int| 0 <= i < j < list.len() implies list[i] != list[j] by {
        lemma_text_lt_irreflexive(list[i]);
    }
}

/// The records of one wallet in one scenario.
pub open spec fn records_of(
    txs: Seq<TransactionRecordView>,
    scenario: Seq<char>,
    wallet: Seq<char>,
) -> Seq<TransactionRecordView> {
    txs.filter(|t: TransactionRecordView| t.scenario == scenario && t.wallet == wallet)
}

/// The wallets that have records in a scenario, the old wallet first.
pub open spec fn reported_wallets(
    txs: Seq<TransactionRecordView>,
    scenario: Seq<char>,
) -> Seq<Seq<char>> {
    (if records_of(txs, scenario, "old_wallet"@).len() > 0 {
        seq!["old_wallet"@]
    } else {
        Seq::empty()
    }) + (if records_of(txs, scenario, "new_wallet"@).len() > 0 {
        seq!["new_wallet"@]
    } else {
        Seq::empty()
    })
}

/// The names of the wallets summarised.
pub open spec fn wallet_names(v: Seq<WalletSummary>) -> Seq<Seq<char>> {
    v.map_values(|w: WalletSummary| w.wallet@)
}

/// The names of the scenarios summarised.
pub open spec fn scenario_names(v: Seq<ScenarioSummary>) -> Seq<Seq<char>> {
    v.map_values(|s: ScenarioSummary| s.scenario@)
}

/// A scenario's summary covers the wallets that have records in it, each with
/// the statistics of its records there.
pub open spec fn summary_holds(txs: Seq<TransactionRecordView>, s: ScenarioSummary) -> bool {
    &&& wallet_names(s.wallets@) == reported_wallets(txs, s.scenario@)
    &&& forall|i: int|
        #![trigger s.wallets@[i]]
        0 <= i < s.wallets@.len() ==> stats_hold(
            records_of(txs, s.scenario@, s.wallets@[i].wallet@),
            s.wallets@[i].stats,
        )
}

/// Adds a text to a strictly ascending list, unless it is there.
fn insert_name(list: &mut Vec<String>, name: &str)
    requires
        strictly_ascending(texts(old(list)@)),
    ensures
        strictly_ascending(texts(final(list)@)),
        forall|x: Seq<char>| #[trigger]
            texts(final(list)@).contains(x) <==> texts(old(list)@).contains(x) || x == name@,
{
    let ghost before = texts(list@);
    let mut k: usize = 0;
    while k < list.len() && str_lt(list[k].as_str(), name)
        invariant
            k <= list.len(),
            before == texts(list@),
            forall|j: int| 0 <= j < k ==> text_lt(before[j], name@),
        decreases list.len() - k,
    {
        k = k + 1;
    }
    if k < list.len() && str_eq(list[k].as_str(), name) {
        assert(before[k as int] == name@);
        return ;
    }
    list.insert(k, name.to_owned());
    proof {
        let after = texts(list@);
        assert(after =~= before.insert(k as int, name@));
        if k < before.len() {
            lemma_text_lt_total(before[k as int], name@);
        }
        assert forall|i: int, j: int| 0 <= i < j < after.len() implies text_lt(
            after[i],
            after[j],
        ) by {
            if i == k {
                assert(after[j] == before[j - 1]);
                if j - 1 > k {
                    lemma_text_lt_transitive(name@, before[k as int], before[j - 1]);
                }
            } else if j == k {
                assert(after[i] == before[i]);
            } else {
                let i0 = if i < k {
                    i
                } else {
                    i - 1
                };
                let j0 = if j < k {
                    j
                } else {
                    j - 1
                };
                assert(after[i] == before[i0]);
                assert(after[j] == before[j0]);
            }
        }
        assert forall|x: Seq<char>| #[trigger] after.contains(x) <==> before.contains(x) || x
            == name@ by {
            if before.contains(x) {
                let i = choose|i: int| 0 <= i < before.len() && before[i] == x;
                if i < k {
                    assert(after[i] == x);
                } else {
                    assert(after[i + 1] == x);
                }
            }
            if x == name@ {
                assert(after[k as int] == x);
            }
            if after.contains(x) {
                let i = choose|i: int| 0 <= i < after.len() && after[i] == x;
                if i < k {
                    assert(before[i] == x);
                } else if i > k {
                    assert(before[i - 1] == x);
                }
            }
        }
    }
}

/// The scenarios that occur in the records, each once, in ascending order.
pub fn distinct_scenarios(records: &Vec<TransactionRecord>) -> (r: Vec<String>)
    ensures
        lists_scenarios(record_views(records@), texts(r@)),
{
    let ghost views = record_views(records@);
    let mut names: Vec<String> = Vec::new();
    let mut i: usize = 0;
    while i < records.len()
        invariant
            i <= records.len(),
            views == record_views(records@),
            strictly_ascending(texts(names@)),
            forall|x: Seq<char>| #[trigger]
                texts(names@).contains(x) <==> occurs(views.take(i as int), x),
        decreases records.len() - i,
    {
        insert_name(&mut names, records[i].scenario.as_str());
        proof {
            let now = views.take(i + 1);
            let then = views.take(i as int);
            assert forall|x: Seq<char>| #[trigger] texts(names@).contains(x) <==> occurs(now, x) by {
                assert(now[i as int] == records@[i as int]@);
                if occurs(then, x) {
                    let j = choose|j: int| 0 <= j < then.len() && (#[trigger] then[j]).scenario == x;
                    assert(now[j].scenario == x);
                }
                if occurs(now, x) {
                    let j = choose|j: int| 0 <= j < now.len() && (#[trigger] now[j]).scenario == x;
                    if j < i {
                        assert(then[j].scenario == x);
                    }
                }
            }
        }
        i = i + 1;
    }
    assert(views.take(i as int) =~= views);
    names
}

/// The records of one wallet in one scenario, in order.
pub fn select_records(
    records: &Vec<TransactionRecord>,
    scenario: &str,
    wallet: &str,
) -> (r: Vec<TransactionRecord>)
    ensures
        record_views(r@) == records_of(record_views(records@), scenario@, wallet@),
        r.len() <= records.len(),
{
    let ghost keep = |t: TransactionRecordView| t.scenario == scenario@ && t.wallet == wallet@;
    let ghost views = record_views(records@);
    let mut out: Vec<TransactionRecord> = Vec::new();
    let mut i: usize = 0;
    proof {
        reveal(Seq::filter);
        assert(record_views(out@) =~= views.take(0).filter(keep));
    }
    while i < records.len()
        invariant
            i <= records.len(),
            out.len() <= i,
            views == record_views(records@),
            keep == (|t: TransactionRecordView| t.scenario == scenario@ && t.wallet == wallet@),
            record_views(out@) == views.take(i as int).filter(keep),
        decreases records.len() - i,
    {
        let ghost before = record_views(out@);
        let ghost next = views.take(i + 1);
        proof {
            reveal(Seq::filter);
            assert(next.drop_last() =~= views.take(i as int));
            assert(next.last() == records@[i as int]@);
        }
        if str_eq(records[i].scenario.as_str(), scenario) && str_eq(
            records[i].wallet.as_str(),
            wallet,
        ) {
            out.push(records[i].clone());
            assert(record_views(out@) =~= before.push(next.last()));
        }
        i = i + 1;
    }
    assert(views.take(i as int) =~= views);
    out
}

/// The fees of a selection of records come to no more than those of all of them.
proof fn lemma_selection_sums(
    s: Seq<TransactionRecordView>,
    keep: spec_fn(TransactionRecordView) -> bool,
)
    ensures
        fee_sum(accepted_of(s.filter(keep))) <= fee_sum(s),
        times_wf(s) ==> times_wf(s.filter(keep)),
    decreases s.len(),
{
    reveal(Seq::filter);
    if s.len() > 0 {
        let rest = s.drop_last();
        lemma_selection_sums(rest, keep);
        let chosen = rest.filter(keep);
        if times_wf(s) {
            assert(times_wf(rest)) by {
                assert forall|i: int| #![trigger rest[i]] 0 <= i < rest.len() implies
                    rest[i].start_time.wf() && rest[i].end_time.wf() by {
                    assert(rest[i] == s[i]);
                }
            }
            assert(s.last().start_time.wf() && s.last().end_time.wf());
        }
        if keep(s.last()) {
            let all = chosen.push(s.last());
            assert(s.filter(keep) =~= all);
            assert(all.drop_last() =~= chosen);
            let acc = accepted_of(chosen);
            if s.last().accepted {
                assert(accepted_of(all) =~= acc.push(s.last()));
                assert(acc.push(s.last()).drop_last() =~= acc);
            } else {
                assert(accepted_of(all) =~= acc);
            }
            if times_wf(s) {
                assert forall|i: int| #![trigger all[i]] 0 <= i < all.len() implies
                    all[i].start_time.wf() && all[i].end_time.wf() by {
                    if i < chosen.len() {
                        assert(all[i] == chosen[i]);
                    }
                }
            }
        }
    }
}

/// Appends a wallet's summary where it has records.
fn push_wallet(
    wallets: &mut Vec<WalletSummary>,
    records: &Vec<TransactionRecord>,
    scenario: &str,
    wallet: &str,
)
    requires
        times_wf(record_views(records@)),
        records.len() * 99 <= usize::MAX,
        fee_sum(record_views(records@)) <= u64::MAX,
        durations_fit(record_views(records@), scenario@, wallet@),
    ensures
        records_of(record_views(records@), scenario@, wallet@).len() == 0 ==> final(wallets)@ == old(
            wallets,
        )@,
        records_of(record_views(records@), scenario@, wallet@).len() > 0 ==> {
            &&& final(wallets)@.len() == old(wallets)@.len() + 1
            &&& final(wallets)@.drop_last() == old(wallets)@
            &&& final(wallets)@.last().wallet@ == wallet@
            &&& stats_hold(
                records_of(record_views(records@), scenario@, wallet@),
                final(wallets)@.last().stats,
            )
        },
{
    let chosen = select_records(records, scenario, wallet);
    proof {
        lemma_selection_sums(
            record_views(records@),
            |t: TransactionRecordView| t.scenario == scenario@ && t.wallet == wallet@,
        );
    }
    if chosen.len() > 0 {
        let stats = MetricsCollector::calculate_stats(&chosen);
        let ghost before = wallets@;
        wallets.push(WalletSummary { wallet: wallet.to_owned(), stats });
        assert(wallets@.drop_last() =~= before);
    }
}

/// The durations of the accepted records of one wallet in one scenario can be
/// added up.
pub open spec fn durations_fit(
    txs: Seq<TransactionRecordView>,
    scenario: Seq<char>,
    wallet: Seq<char>,
) -> bool {
    duration_sum(accepted_of(records_of(txs, scenario, wallet))) <= u64::MAX
}

/// The records can be summarised: their times are on the calendar, and for each
/// scenario that occurs the durations of each wallet, and percentile positions,
/// can be computed in machine integers.
pub open spec fn can_summarise(txs: Seq<TransactionRecordView>) -> bool {
    &&& times_wf(txs)
    &&& txs.len() * 99 <= usize::MAX
    &&& forall|scenario: Seq<char>| #[trigger]
        occurs(txs, scenario) ==> durations_fit(txs, scenario, "old_wallet"@) && durations_fit(
            txs,
            scenario,
            "new_wallet"@,
        )
}

proof fn lemma_accepted_durations_grow(s: Seq<TransactionRecordView>, i: int)
    requires
        0 <= i <= s.len(),
    ensures
        duration_sum(accepted_of(s.take(i))) <= duration_sum(accepted_of(s)),
    decreases s.len() - i,
{
    if i == s.len() {
        assert(s.take(i) =~= s);
    } else {
        lemma_accepted_durations_grow(s, i + 1);
        lemma_accepted_durations_step(s, i);
    }
}

proof fn lemma_accepted_durations_step(s: Seq<TransactionRecordView>, i: int)
    requires
        0 <= i < s.len(),
    ensures
        duration_sum(accepted_of(s.take(i + 1))) == duration_sum(accepted_of(s.take(i))) + (
        if s[i].accepted {
            s[i].duration_ms as nat
        } else {
            0
        }),
{
    let next = s.take(i + 1);
    let before = accepted_of(s.take(i));
    reveal(Seq::filter);
    assert(next.drop_last() =~= s.take(i));
    assert(next.last() == s[i]);
    assert(before.push(s[i]).drop_last() =~= before);
}

/// Whether the durations of the accepted records can be added up.
fn can_add_durations(records: &Vec<TransactionRecord>) -> (r: bool)
    ensures
        r == (duration_sum(accepted_of(record_views(records@))) <= u64::MAX),
{
    let ghost views = record_views(records@);
    let mut total: u64 = 0;
    let mut i: usize = 0;
    proof {
        reveal(Seq::filter);
        assert(views.take(0) =~= Seq::empty());
        assert(accepted_of(views.take(0)) =~= Seq::empty());
    }
    while i < records.len()
        invariant
            i <= records.len(),
            views == record_views(records@),
            total == duration_sum(accepted_of(views.take(i as int))),
        decreases records.len() - i,
    {
        proof {
            assert(views[i as int] == records@[i as int]@);
            lemma_accepted_durations_step(views, i as int);
            lemma_accepted_durations_grow(views, i + 1);
        }
        if records[i].accepted {
            if records[i].duration_ms > u64::MAX - total {
                return false;
            }
            total = total + records[i].duration_ms;
        }
        i = i + 1;
    }
    assert(views.take(i as int) =~= views);
    true
}

impl Reporter {
    /// The columns of the summary file, in order.
    pub fn summary_header() -> (r: Vec<String>)
        ensures
            texts(r@) == summary_columns(),
    {
        let mut columns: Vec<String> = Vec::new();
        columns.push("scenario".to_owned());
        columns.push("wallet".to_owned());
        columns.push("total_txs".to_owned());
        columns.push("accepted".to_owned());
        columns.push("errors".to_owned());
        columns.push("error_rate".to_owned());
        columns.push("tps".to_owned());
        columns.push("p50_ms".to_owned());
        columns.push("p95_ms".to_owned());
        columns.push("p99_ms".to_owned());
        columns.push("avg_ms".to_owned());
        columns.push("total_fees".to_owned());
        assert(texts(columns@) =~= summary_columns());
        columns
    }

    /// Whether the collected records can be summarised.
    pub fn fits(collector: &MetricsCollector) -> (r: bool)
        ensures
            r == can_summarise(collector@.transactions),
    {
        let records = collector.get_transactions();
        let ghost txs = collector@.transactions;
        assert(txs.len() == records.len());
        if records.len() > usize::MAX / 99 {
            return false;
        }
        let mut i: usize = 0;
        while i < records.len()
            invariant
                i <= records.len(),
                txs == collector@.transactions,
                txs == record_views(records@),
                forall|j: int|
                    #![trigger txs[j]]
                    0 <= j < i ==> txs[j].start_time.wf() && txs[j].end_time.wf(),
            decreases records.len() - i,
        {
            assert(txs[i as int] == records@[i as int]@);
            if !records[i].start_time.is_valid() || !records[i].end_time.is_valid() {
                return false;
            }
            i = i + 1;
        }
        let names = distinct_scenarios(&records);
        let mut k: usize = 0;
        while k < names.len()
            invariant
                k <= names.len(),
                txs == collector@.transactions,
                txs == record_views(records@),
                lists_scenarios(txs, texts(names@)),
                forall|j: int|
                    0 <= j < k ==> durations_fit(txs, (#[trigger] names@[j])@, "old_wallet"@)
                        && durations_fit(txs, names@[j]@, "new_wallet"@),
            decreases names.len() - k,
        {
            assert(texts(names@)[k as int] == names@[k as int]@);
            assert(texts(names@).contains(names@[k as int]@));
            assert(occurs(txs, names@[k as int]@));
            let old_records = select_records(&records, names[k].as_str(), "old_wallet");
            let new_records = select_records(&records, names[k].as_str(), "new_wallet");
            if !can_add_durations(&old_records) || !can_add_durations(&new_records) {
                return false;
            }
            k = k + 1;
        }
        assert forall|scenario: Seq<char>| #[trigger] occurs(txs, scenario) implies durations_fit(
            txs,
            scenario,
            "old_wallet"@,
        ) && durations_fit(txs, scenario, "new_wallet"@) by {
            assert(texts(names@).contains(scenario));
            let j = choose|j: int| 0 <= j < texts(names@).len() && texts(names@)[j] == scenario;
            assert(names@[j]@ == scenario);
        }
        true
    }

    /// The files to write for what was collected.
    pub fn files(collector: &MetricsCollector) -> (r: Vec<ReportFile>)
        ensures
            r@ == report_files(collector@.snapshots.len() > 0, collector@.scans.len() > 0),
    {
        let mut files: Vec<ReportFile> = Vec::new();
        files.push(ReportFile::Transactions);
        if collector.snapshot_count() > 0 {
            files.push(ReportFile::SystemSnapshots);
        }
        if collector.scan_count() > 0 {
            files.push(ReportFile::Scans);
        }
        files.push(ReportFile::Summary);
        assert(files@ =~= report_files(
            collector@.snapshots.len() > 0,
            collector@.scans.len() > 0,
        ));
        files
    }

    /// Summarises the records: each scenario that occurs, in ascending order,
    /// with the statistics of each wallet that has records in it.
    pub fn summary(collector: &MetricsCollector) -> (r: Vec<ScenarioSummary>)
        requires
            collector.wf(),
            can_summarise(collector@.transactions),
        ensures
            lists_scenarios(collector@.transactions, scenario_names(r@)),
            forall|i: int|
                0 <= i < r@.len() ==> summary_holds(collector@.transactions, #[trigger] r@[i]),
    {
        let records = collector.get_transactions();
        let ghost txs = collector@.transactions;
        let fees: u64 = collector.total_fees();
        assert(fees == fee_sum(txs));
        let names = distinct_scenarios(&records);
        let mut out: Vec<ScenarioSummary> = Vec::new();
        let mut i: usize = 0;
        while i < names.len()
            invariant
                i <= names.len(),
                txs == record_views(records@),
                times_wf(txs),
                records.len() == txs.len(),
                txs.len() * 99 <= usize::MAX,
                fee_sum(txs) <= u64::MAX,
                can_summarise(txs),
                lists_scenarios(txs, texts(names@)),
                out.len() == i,
                forall|j: int| 0 <= j < i ==> (#[trigger] out@[j]).scenario@ == names@[j]@,
                forall|j: int| 0 <= j < i ==> summary_holds(txs, #[trigger] out@[j]),
            decreases names.len() - i,
        {
            let mut wallets: Vec<WalletSummary> = Vec::new();
            assert(texts(names@)[i as int] == names@[i as int]@);
            assert(texts(names@).contains(names@[i as int]@));
            assert(occurs(txs, names@[i as int]@));
            push_wallet(&mut wallets, &records, names[i].as_str(), "old_wallet");
            let ghost first = wallets@;
            push_wallet(&mut wallets, &records, names[i].as_str(), "new_wallet");
            proof {
                let scenario = names@[i as int]@;
                assert(wallet_names(wallets@) =~= reported_wallets(txs, scenario)) by {
                    if first.len() > 0 {
                        assert(first.last() == first[0]);
                        if wallets@.len() == 2 {
                            assert(wallets@.drop_last()[0] == wallets@[0]);
                        }
                    }
                }
                assert forall|j: int| #![trigger wallets@[j]] 0 <= j < wallets@.len() implies
                    stats_hold(records_of(txs, scenario, wallets@[j].wallet@), wallets@[j].stats) by {
                    if wallets@.len() == 2 {
                        assert(wallets@.drop_last()[0] == wallets@[0]);
                    }
                }
            }
            out.push(ScenarioSummary { scenario: names[i].clone(), wallets });
            i = i + 1;
        }
        assert(scenario_names(out@) =~= texts(names@));
        out
    }
}

// ---------------------------------------------------------------------------
// What a report tells
// ---------------------------------------------------------------------------

/// The scenarios listed are those of the records: each record's is listed, each
/// one listed is some record's, none is listed twice, and they stand in order.
pub proof fn law_every_scenario_is_listed(
    records: Vec<TransactionRecord>,
    r: Vec<String>,
    k: int,
    i: int,
    j: int,
    first: &str,
    second: &str,
    before: bool,
)
    requires
        call_ensures(distinct_scenarios, (&records,), r),
        0 <= i < j < r.len(),
        first@ == r@[i]@,
        second@ == r@[j]@,
        call_ensures(str_lt, (first, second), before),
    ensures
        0 <= k < records.len() ==> exists|n: int|
            0 <= n < r.len() && (#[trigger] r@[n])@ == records@[k].scenario@,
        exists|n: int| 0 <= n < records.len() && (#[trigger] records@[n]).scenario@ == r@[i]@,
        r@[i]@ != r@[j]@,
        before,
{
    let views = record_views(records@);
    let names = texts(r@);
    lemma_text_lt_irreflexive(names[i]);
    assert(names[i] == r@[i]@ && names[j] == r@[j]@);
    assert(names.contains(names[i]));
    let n = choose|n: int| 0 <= n < views.len() && (#[trigger] views[n]).scenario == names[i];
    assert(views[n] == records@[n]@);
    assert(records@[n].scenario@ == r@[i]@);
    if 0 <= k < records.len() {
        assert(views[k] == records@[k]@);
        assert(occurs(views, views[k].scenario));
        assert(names.contains(views[k].scenario));
        let m = choose|m: int| 0 <= m < names.len() && names[m] == views[k].scenario;
        assert(r@[m]@ == records@[k].scenario@);
    }
}

proof fn lemma_selected(s: Seq<TransactionRecord>, scenario: &str, wallet: &str)
    ensures
        record_views(
            s.filter(
                |t: TransactionRecord| t.scenario@ == scenario@ && t.wallet@ == wallet@,
            ),
        ) == records_of(record_views(s), scenario@, wallet@),
    decreases s.len(),
{
    reveal(Seq::filter);
    let keep = |t: TransactionRecord| t.scenario@ == scenario@ && t.wallet@ == wallet@;
    if s.len() > 0 {
        let rest = s.drop_last();
        lemma_selected(rest, scenario, wallet);
        assert(record_views(s).drop_last() =~= record_views(rest));
        assert(record_views(s).last() == s.last()@);
        let chosen = rest.filter(keep);
        if keep(s.last()) {
            assert(record_views(chosen.push(s.last())) =~= record_views(chosen).push(
                s.last()@,
            ));
        }
    } else {
        assert(record_views(s.filter(keep)) =~= records_of(record_views(s), scenario@, wallet@));
    }
}

/// The records of a wallet in a scenario are all of those, in their order and
/// unchanged, and no others.
pub proof fn law_selection_is_exact(
    records: Vec<TransactionRecord>,
    scenario: &str,
    wallet: &str,
    r: Vec<TransactionRecord>,
)
    requires
        call_ensures(select_records, (&records, scenario, wallet), r),
    ensures
        same_records(
            r@,
            records@.filter(
                |t: TransactionRecord| t.scenario@ == scenario@ && t.wallet@ == wallet@,
            ),
        ),
{
    let kept = records@.filter(
        |t: TransactionRecord| t.scenario@ == scenario@ && t.wallet@ == wallet@,
    );
    lemma_selected(records@, scenario, wallet);
    assert(record_views(r@).len() == r.len());
    assert(record_views(kept).len() == kept.len());
    assert forall|i: int| 0 <= i < r.len() implies same_record(#[trigger] r@[i], kept[i]) by {
        assert(record_views(r@)[i] == r@[i]@);
        assert(record_views(kept)[i] == kept[i]@);
    }
}

/// The summary has the statistics of exactly those records that a wallet has in
/// a scenario, and only where it has any.
pub proof fn law_summary_is_of_the_wallets_own_records(
    collector: MetricsCollector,
    r: Vec<ScenarioSummary>,
    i: int,
    j: int,
    all: Vec<TransactionRecord>,
    scenario: &str,
    wallet: &str,
    chosen: Vec<TransactionRecord>,
    stats: ScenarioStats,
)
    requires
        call_ensures(Reporter::summary, (&collector,), r),
        0 <= i < r.len(),
        0 <= j < r@[i].wallets.len(),
        call_ensures(MetricsCollector::get_transactions, (&collector,), all),
        scenario@ == r@[i].scenario@,
        wallet@ == r@[i].wallets@[j].wallet@,
        call_ensures(select_records, (&all, scenario, wallet), chosen),
        call_ensures(MetricsCollector::calculate_stats, (&chosen,), stats),
    ensures
        chosen.len() > 0,
        r@[i].wallets@[j].stats == stats,
        wallet@ == "old_wallet"@ || wallet@ == "new_wallet"@,
{
    let txs = collector@.transactions;
    let s = r@[i];
    assert(summary_holds(txs, s));
    let names = wallet_names(s.wallets@);
    assert(names[j] == s.wallets@[j].wallet@);
    assert(names.len() == s.wallets@.len());
    assert(reported_wallets(txs, s.scenario@)[j] == wallet@);
    assert(record_views(chosen@).len() == chosen.len());
    assert(stats_hold(records_of(txs, s.scenario@, wallet@), s.wallets@[j].stats));
    law_one_summary(record_views(chosen@), s.wallets@[j].stats, stats);
}

/// Every record of either wallet is part of the summary: its scenario is listed
/// there, with the record's wallet. The old wallet stands before the new one,
/// and none stands twice.
pub proof fn law_summary_leaves_no_record_out(
    collector: MetricsCollector,
    r: Vec<ScenarioSummary>,
    all: Vec<TransactionRecord>,
    k: int,
    n: int,
)
    requires
        call_ensures(Reporter::summary, (&collector,), r),
        call_ensures(MetricsCollector::get_transactions, (&collector,), all),
        0 <= k < all.len(),
        all@[k].wallet@ == "old_wallet"@ || all@[k].wallet@ == "new_wallet"@,
        0 <= n < r.len(),
    ensures
        exists|i: int, j: int|
            0 <= i < r.len() && 0 <= j < r@[i].wallets.len() && r@[i].scenario@
                == all@[k].scenario@ && (#[trigger] r@[i].wallets@[j]).wallet@ == all@[k].wallet@,
        r@[n].wallets.len() <= 2,
        r@[n].wallets.len() == 2 ==> r@[n].wallets@[0].wallet@ == "old_wallet"@
            && r@[n].wallets@[1].wallet@ == "new_wallet"@,
{
    let txs = collector@.transactions;
    assert(record_views(all@)[k] == all@[k]@);
    let scenario = txs[k].scenario;
    let wallet = txs[k].wallet;
    assert(occurs(txs, scenario));
    assert(scenario_names(r@).contains(scenario));
    let i = choose|i: int| 0 <= i < scenario_names(r@).len() && scenario_names(r@)[i] == scenario;
    assert(r@[i].scenario@ == scenario);
    assert(summary_holds(txs, r@[i]));
    assert(summary_holds(txs, r@[n]));
    lemma_selected_has(txs, scenario, wallet, k);
    let names = wallet_names(r@[i].wallets@);
    assert(names.len() == r@[i].wallets@.len());
    let told = reported_wallets(txs, scenario);
    let j: int = if wallet == "old_wallet"@ {
        0
    } else {
        told.len() - 1
    };
    assert(told[j] == wallet);
    assert(names[j] == r@[i].wallets@[j].wallet@);
    assert(r@[i].wallets@[j].wallet@ == all@[k].wallet@);
    let others = wallet_names(r@[n].wallets@);
    assert(others.len() == r@[n].wallets@.len());
    if others.len() == 2 {
        assert(others[0] == r@[n].wallets@[0].wallet@);
        assert(others[1] == r@[n].wallets@[1].wallet@);
    }
}

proof fn lemma_selected_has(
    s: Seq<TransactionRecordView>,
    scenario: Seq<char>,
    wallet: Seq<char>,
    k: int,
)
    requires
        0 <= k < s.len(),
        s[k].scenario == scenario,
        s[k].wallet == wallet,
    ensures
        records_of(s, scenario, wallet).len() > 0,
    decreases s.len(),
{
    reveal(Seq::filter);
    if k < s.len() - 1 {
        assert(s.drop_last()[k] == s[k]);
        lemma_selected_has(s.drop_last(), scenario, wallet, k);
    }
}

/// A report always has the transactions and the summary; snapshots and scans
/// are in it exactly where there are any. Nothing is in it twice.
pub proof fn law_report_has_what_was_collected(
    collector: MetricsCollector,
    snapshots: usize,
    scans: usize,
    r: Vec<ReportFile>,
    i: int,
    j: int,
)
    requires
        call_ensures(Reporter::files, (&collector,), r),
        call_ensures(MetricsCollector::snapshot_count, (&collector,), snapshots),
        call_ensures(MetricsCollector::scan_count, (&collector,), scans),
        0 <= i < r.len(),
        0 <= j < r.len(),
    ensures
        r@.contains(ReportFile::Transactions),
        r@.contains(ReportFile::Summary),
        r@.contains(ReportFile::SystemSnapshots) <==> snapshots > 0,
        r@.contains(ReportFile::Scans) <==> scans > 0,
        r@[i] == r@[j] ==> i == j,
{
    let s = r@;
    assert(s[0] == ReportFile::Transactions);
    assert(s[s.len() - 1] == ReportFile::Summary);
    if snapshots > 0 {
        assert(s[1] == ReportFile::SystemSnapshots);
    }
    if scans > 0 {
        assert(s[s.len() - 2] == ReportFile::Scans);
    }
}

/// Each file of a report has its own name.
pub proof fn law_report_files_have_their_names(file: ReportFile, r: &'static str)
    requires
        call_ensures(ReportFile::name, (file,), r),
    ensures
        file == ReportFile::Transactions ==> r@ == "transactions.csv"@,
        file == ReportFile::Scans ==> r@ == "scans.csv"@,
        file == ReportFile::SystemSnapshots ==> r@ == "system_snapshots.csv"@,
        file == ReportFile::Summary ==> r@ == "summary.csv"@,
{
}

/// The summary file names what it tells: who and where, how many, how well, how
/// fast and at what cost.
pub proof fn law_summary_names_its_columns(r: Vec<String>)
    requires
        call_ensures(Reporter::summary_header, (), r),
    ensures
        r.len() == 12,
        r@[0]@ == "scenario"@ && r@[1]@ == "wallet"@,
        r@[2]@ == "total_txs"@ && r@[3]@ == "accepted"@ && r@[4]@ == "errors"@,
        r@[5]@ == "error_rate"@ && r@[6]@ == "tps"@,
        r@[7]@ == "p50_ms"@ && r@[8]@ == "p95_ms"@ && r@[9]@ == "p99_ms"@ && r@[10]@ == "avg_ms"@,
        r@[11]@ == "total_fees"@,
{
    let t = texts(r@);
    assert(t.len() == r.len());
    assert(t[0] == r@[0]@ && t[1] == r@[1]@ && t[2] == r@[2]@ && t[3] == r@[3]@);
    assert(t[4] == r@[4]@ && t[5] == r@[5]@ && t[6] == r@[6]@ && t[7] == r@[7]@);
    assert(t[8] == r@[8]@ && t[9] == r@[9]@ && t[10] == r@[10]@ && t[11] == r@[11]@);
}

proof fn lemma_selected_durations(
    s: Seq<TransactionRecordView>,
    keep: spec_fn(TransactionRecordView) -> bool,
    most: u64,
)
    requires
        forall|i: int| 0 <= i < s.len() ==> (#[trigger] s[i]).duration_ms <= most,
    ensures
        duration_sum(accepted_of(s.filter(keep))) <= s.len() * most,
    decreases s.len(),
{
    reveal(Seq::filter);
    if s.len() == 0 {
        assert(s.filter(keep).len() == 0);
        assert(accepted_of(s.filter(keep)).len() == 0);
        assert(0 * most == 0) by (nonlinear_arith);
    } else {
        let rest = s.drop_last();
        assert forall|i: int| 0 <= i < rest.len() implies (#[trigger] rest[i]).duration_ms
            <= most by {
            assert(rest[i] == s[i]);
        }
        lemma_selected_durations(rest, keep, most);
        assert(s[s.len() - 1].duration_ms <= most);
        let n = rest.len() as int;
        assert((n + 1) * most == n * most + most) by (nonlinear_arith);
        let chosen = rest.filter(keep);
        if keep(s.last()) {
            let all = chosen.push(s.last());
            assert(s.filter(keep) =~= all);
            assert(all.drop_last() =~= chosen);
            let acc = accepted_of(chosen);
            if s.last().accepted {
                assert(accepted_of(all) =~= acc.push(s.last()));
                assert(acc.push(s.last()).drop_last() =~= acc);
            } else {
                assert(accepted_of(all) =~= acc);
            }
        }
    }
}

/// Records can be summarised wherever their times are valid, they are not too
/// many to take percentiles of, and they cannot have taken longer together than
/// can be counted. With a time that is not valid they cannot be.
pub proof fn law_ordinary_records_can_be_summarised(
    collector: MetricsCollector,
    all: Vec<TransactionRecord>,
    most: u64,
    r: bool,
)
    requires
        call_ensures(Reporter::fits, (&collector,), r),
        call_ensures(MetricsCollector::get_transactions, (&collector,), all),
        all.len() * 99 <= usize::MAX,
        all.len() * most <= u64::MAX,
        forall|i: int| 0 <= i < all.len() ==> (#[trigger] all@[i]).duration_ms <= most,
    ensures
        r <==> forall|i: int|
            0 <= i < all.len() ==> (#[trigger] all@[i]).start_time.wf() && all@[i].end_time.wf(),
{
    let txs = collector@.transactions;
    assert(txs.len() == all.len());
    assert(forall|i: int| 0 <= i < txs.len() ==> #[trigger] txs[i] == all@[i]@);
    assert forall|i: int| 0 <= i < txs.len() implies (#[trigger] txs[i]).duration_ms <= most by {
        assert(all@[i].duration_ms <= most);
    }
    assert forall|scenario: Seq<char>| #[trigger] occurs(txs, scenario) implies durations_fit(
        txs,
        scenario,
        "old_wallet"@,
    ) && durations_fit(txs, scenario, "new_wallet"@) by {
        lemma_selected_durations(
            txs,
            |t: TransactionRecordView| t.scenario == scenario && t.wallet == "old_wallet"@,
            most,
        );
        lemma_selected_durations(
            txs,
            |t: TransactionRecordView| t.scenario == scenario && t.wallet == "new_wallet"@,
            most,
        );
    }
    if times_wf(txs) {
        assert forall|i: int| 0 <= i < all.len() implies (#[trigger] all@[i]).start_time.wf()
            && all@[i].end_time.wf() by {
            assert(txs[i].start_time.wf() && txs[i].end_time.wf());
        }
    }
}

} // verus!
