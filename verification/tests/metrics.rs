use wallet_performance::driver::{SendResult, WalletBalance};
use wallet_performance::metrics::recorder::{
    sorted, MetricsCollector, ScanRecord, SystemSnapshot, Timing, TransactionRecord,
};
use wallet_performance::metrics::reporter::{
    distinct_scenarios, select_records, ReportFile, Reporter,
};
use wallet_performance::metrics::system_monitor::{MonitorWake, SystemMonitor};
use wallet_performance::time::Timestamp;

fn at(secs: i64, nanos: u32) -> Timestamp {
    Timestamp { secs, nanos }
}

fn record(wallet: &str, scenario: &str, ms: u64, accepted: bool, fee: Option<u64>) -> TransactionRecord {
    TransactionRecord {
        wallet: wallet.to_string(),
        scenario: scenario.to_string(),
        tx_id: "1".to_string(),
        start_time: at(100, 0),
        end_time: at(110, 0),
        duration_ms: ms,
        accepted,
        error: if accepted { None } else { Some("no".to_string()) },
        amount: 5,
        fee,
        tx_type: "send".to_string(),
    }
}

#[test]
fn no_records_have_no_stats() {
    let s = MetricsCollector::calculate_stats(&vec![]);
    assert_eq!((s.total_count, s.accepted_count, s.error_count, s.wall_clock_secs), (0, 0, 0, 0));
    assert_eq!((s.latency_p50_ms, s.latency_p95_ms, s.latency_p99_ms, s.avg_latency_ms, s.total_fees), (0, 0, 0, 0, 0));
}

#[test]
fn stats_of_a_hundred_records() {
    let mut records: Vec<TransactionRecord> =
        (0..100u64).rev().map(|i| record("old_wallet", "s", i * 10, true, Some(3))).collect();
    records.push(record("old_wallet", "s", 9_999, false, Some(1000)));
    let s = MetricsCollector::calculate_stats(&records);
    assert_eq!(s.total_count, 101);
    assert_eq!(s.accepted_count, 100);
    assert_eq!(s.error_count, 1);
    assert_eq!(s.latency_p50_ms, 500);
    assert_eq!(s.latency_p95_ms, 950);
    assert_eq!(s.latency_p99_ms, 990);
    assert_eq!(s.avg_latency_ms, 495);
    assert_eq!(s.total_fees, 300);
    assert_eq!(s.wall_clock_secs, 10);
}

#[test]
fn stats_of_one_record_and_of_refusals_only() {
    let s = MetricsCollector::calculate_stats(&vec![record("w", "s", 7, true, None)]);
    assert_eq!((s.latency_p50_ms, s.latency_p95_ms, s.latency_p99_ms, s.avg_latency_ms), (7, 7, 7, 7));
    let s = MetricsCollector::calculate_stats(&vec![record("w", "s", 7, false, Some(5))]);
    assert_eq!((s.accepted_count, s.error_count, s.latency_p50_ms, s.avg_latency_ms, s.total_fees), (0, 1, 0, 0, 0));
}

#[test]
fn the_wall_clock_runs_from_first_start_to_last_end() {
    let mut a = record("w", "s", 1, true, None);
    let mut b = record("w", "s", 1, true, None);
    a.start_time = at(1_000, 500_000_000);
    a.end_time = at(1_001, 0);
    b.start_time = at(1_003, 0);
    b.end_time = at(1_005, 400_000_000);
    let s = MetricsCollector::calculate_stats(&vec![b.clone(), a.clone()]);
    assert_eq!(s.wall_clock_secs, 4);
    b.start_time = at(1_000, 900_000_000);
    b.end_time = at(1_001, 200_000_000);
    let s = MetricsCollector::calculate_stats(&vec![a.clone(), b]);
    assert_eq!(s.wall_clock_secs, 1);
    a.end_time = at(900, 0);
    let s = MetricsCollector::calculate_stats(&vec![a]);
    assert_eq!(s.wall_clock_secs, 1);
}

#[test]
fn numbers_are_sorted() {
    assert_eq!(sorted(&vec![3, 1, 2, 3, 0]), vec![0, 1, 2, 3, 3]);
    assert!(sorted(&vec![]).is_empty());
}

#[test]
fn fees_add_up_over_all_records() {
    let mut c = MetricsCollector::new();
    assert_eq!(c.total_fees(), 0);
    c.record_transaction(record("old_wallet", "a", 1, true, Some(5)));
    c.record_transaction(record("old_wallet", "b", 1, false, Some(7)));
    c.record_transaction(record("new_wallet", "a", 1, true, None));
    assert_eq!(c.total_fees(), 12);
    assert_eq!(c.get_transactions().len(), 3);
    let a = c.get_transactions_for_scenario("a");
    assert_eq!(a.iter().map(|r| r.wallet.as_str()).collect::<Vec<_>>(), vec!["old_wallet", "new_wallet"]);
    assert!(c.get_transactions_for_scenario("x").is_empty());
    assert!(c.can_record(Some(u64::MAX - 12)));
    assert!(!c.can_record(Some(u64::MAX - 11)));
    assert!(c.can_record(None));
}

#[test]
fn scans_and_snapshots_are_kept_in_order() {
    let mut c = MetricsCollector::new();
    for i in 0..2u64 {
        c.record_scan(ScanRecord {
            wallet: format!("w{}", i),
            scan_type: "fresh".to_string(),
            start_time: at(0, 0),
            end_time: at(1, 0),
            duration_ms: i,
            start_height: None,
            end_height: Some(i),
            blocks_scanned: Some(9),
        });
        c.record_snapshot(SystemSnapshot {
            timestamp: at(5, 0),
            wallet: format!("w{}", i),
            memory_rss_bytes: i,
            cpu_percent_bits: 1.5f32.to_bits(),
            utxo_count: None,
            balance_available: Some(3),
        });
    }
    assert_eq!((c.scan_count(), c.snapshot_count()), (2, 2));
    assert_eq!(c.get_scan_records()[1].wallet, "w1");
    assert_eq!(c.get_scan_records()[1].end_height, Some(1));
    assert_eq!(c.get_snapshots()[0].wallet, "w0");
    assert_eq!(f32::from_bits(c.get_snapshots()[0].cpu_percent_bits), 1.5);
}

#[test]
fn sends_are_recorded_with_what_they_came_to() {
    let result = SendResult { tx_id: "9".to_string(), accepted: true, error: None, fee: Some(2) };
    let timing = Timing { start: at(1, 0), end: at(2, 0), duration_ms: 1000 };
    let r = TransactionRecord::of_send("w", "s", "t", 77, &result, timing);
    assert_eq!((r.wallet.as_str(), r.scenario.as_str(), r.tx_type.as_str(), r.tx_id.as_str()), ("w", "s", "t", "9"));
    assert_eq!((r.amount, r.fee, r.accepted, r.duration_ms), (77, Some(2), true, 1000));
    assert_eq!((r.start_time, r.end_time), (at(1, 0), at(2, 0)));
}

#[test]
fn the_summary_lists_scenarios_in_order_and_the_old_wallet_first() {
    let mut c = MetricsCollector::new();
    c.record_transaction(record("new_wallet", "pool_payout", 4, true, Some(1)));
    c.record_transaction(record("old_wallet", "pool_payout", 2, true, Some(1)));
    c.record_transaction(record("new_wallet", "baseline", 8, true, None));
    c.record_transaction(record("other", "zzz", 8, true, None));
    c.record_transaction(record("old_wallet", "pool_payout", 6, false, None));
    assert!(Reporter::fits(&c));
    let s = Reporter::summary(&c);
    assert_eq!(s.iter().map(|x| x.scenario.as_str()).collect::<Vec<_>>(), vec!["baseline", "pool_payout", "zzz"]);
    assert_eq!(s[0].wallets.len(), 1);
    assert_eq!(s[0].wallets[0].wallet, "new_wallet");
    assert_eq!(s[1].wallets.iter().map(|w| w.wallet.as_str()).collect::<Vec<_>>(), vec!["old_wallet", "new_wallet"]);
    assert_eq!(s[1].wallets[0].stats.total_count, 2);
    assert_eq!(s[1].wallets[0].stats.error_count, 1);
    assert_eq!(s[1].wallets[0].stats.latency_p50_ms, 2);
    assert!(s[2].wallets.is_empty());
    let all = c.get_transactions();
    assert_eq!(distinct_scenarios(&all), vec!["baseline", "pool_payout", "zzz"]);
    assert_eq!(select_records(&all, "pool_payout", "old_wallet").len(), 2);
}

#[test]
fn records_off_the_calendar_do_not_fit() {
    let mut c = MetricsCollector::new();
    let mut r = record("w", "s", 1, true, None);
    r.end_time = at(i64::MAX, 0);
    c.record_transaction(r);
    assert!(!Reporter::fits(&c));
    let mut c = MetricsCollector::new();
    c.record_transaction(record("old_wallet", "s", u64::MAX, true, None));
    assert!(Reporter::fits(&c));
    c.record_transaction(record("old_wallet", "s", 1, false, None));
    c.record_transaction(record("old_wallet", "t", 1, true, None));
    c.record_transaction(record("new_wallet", "s", u64::MAX, true, None));
    assert!(Reporter::fits(&c));
    assert_eq!(Reporter::summary(&c).len(), 2);
    c.record_transaction(record("old_wallet", "s", 1, true, None));
    assert!(!Reporter::fits(&c));
}

#[test]
fn reports_have_the_files_that_there_is_data_for() {
    let mut c = MetricsCollector::new();
    assert_eq!(Reporter::files(&c), vec![ReportFile::Transactions, ReportFile::Summary]);
    c.record_scan(ScanRecord {
        wallet: "w".to_string(),
        scan_type: "fresh".to_string(),
        start_time: at(0, 0),
        end_time: at(0, 0),
        duration_ms: 0,
        start_height: None,
        end_height: None,
        blocks_scanned: None,
    });
    assert_eq!(Reporter::files(&c), vec![ReportFile::Transactions, ReportFile::Scans, ReportFile::Summary]);
    c.record_snapshot(SystemMonitor::snapshot(at(0, 0), "w", 1, 0, None));
    let names: Vec<&str> = Reporter::files(&c).iter().map(|f| f.name()).collect();
    assert_eq!(names, vec!["transactions.csv", "system_snapshots.csv", "scans.csv", "summary.csv"]);
    assert_eq!(
        Reporter::summary_header().join(","),
        "scenario,wallet,total_txs,accepted,errors,error_rate,tps,p50_ms,p95_ms,p99_ms,avg_ms,total_fees"
    );
}

#[test]
fn the_monitor_stops_only_for_a_raised_flag() {
    assert!(SystemMonitor::stops(MonitorWake::FlagChanged { stop: true }));
    assert!(!SystemMonitor::stops(MonitorWake::FlagChanged { stop: false }));
    assert!(!SystemMonitor::stops(MonitorWake::FlagClosed));
    assert!(!SystemMonitor::stops(MonitorWake::Tick));
}

#[test]
fn snapshots_hold_the_balance_where_there_is_one() {
    let balance = WalletBalance { available: 5, pending_incoming: 6, pending_outgoing: 7, locked: 8 };
    let s = SystemMonitor::snapshot(at(3, 0), "old_wallet", 1024, 2, Some(balance));
    assert_eq!((s.balance_available, s.utxo_count, s.memory_rss_bytes, s.cpu_percent_bits), (Some(5), None, 1024, 2));
    assert_eq!(SystemMonitor::snapshot(at(3, 0), "w", 1, 2, None).balance_available, None);
}

fn spread_records() -> Vec<TransactionRecord> {
    let mut records: Vec<TransactionRecord> =
        [(30, true), (10, true), (99, false), (20, true)].iter().map(|(ms, ok)| record("w", "s", *ms, *ok, Some(*ms))).collect();
    records[1].start_time = at(90, 0);
    records[3].end_time = at(130, 0);
    records
}

#[test]
fn the_order_of_records_changes_no_summary() {
    let mut records = spread_records();
    let stats = MetricsCollector::calculate_stats(&records);
    assert_eq!((stats.latency_p50_ms, stats.avg_latency_ms, stats.total_fees, stats.wall_clock_secs), (20, 20, 60, 40));
    for _ in 0..records.len() {
        records.rotate_left(1);
        assert_eq!(MetricsCollector::calculate_stats(&records), stats);
    }
    records.reverse();
    assert_eq!(MetricsCollector::calculate_stats(&records), stats);
}

#[test]
fn a_rejected_record_is_one_error_more() {
    let before = MetricsCollector::calculate_stats(&spread_records());
    for place in 0..=4 {
        let mut records = spread_records();
        records.insert(place, record("w", "s", 1000, false, Some(1000)));
        let after = MetricsCollector::calculate_stats(&records);
        assert_eq!((after.total_count, after.error_count), (before.total_count + 1, before.error_count + 1));
        assert_eq!(after.accepted_count, before.accepted_count);
        assert_eq!((after.latency_p50_ms, after.latency_p95_ms, after.latency_p99_ms), (before.latency_p50_ms, before.latency_p95_ms, before.latency_p99_ms));
        assert_eq!((after.avg_latency_ms, after.total_fees), (before.avg_latency_ms, before.total_fees));
    }
    let alone = MetricsCollector::calculate_stats(&vec![record("w", "s", 5, false, Some(5))]);
    assert_eq!((alone.total_count, alone.error_count, alone.accepted_count, alone.total_fees), (1, 1, 0, 0));
}
