use wallet_performance::address_pool::AddressPoolEntry;
use wallet_performance::driver::{SendResult, TransactionStatus, WalletBalance};
use wallet_performance::fund_management::consolidator::{ConsolidateError, ConsolidationPlan, Consolidator, rejected_text};
use wallet_performance::fund_management::drainer::{
    judge_keys, BalanceCredit, DrainEvent, DrainRun, DrainStage, DrainTotals, Drainer, FoundOutput, InsertStep, PoolScan, RegisterStep, Registration, ScanNext, SweepPlan,
};
use wallet_performance::fund_management::reconciler::Reconciler;
use wallet_performance::fund_management::splitter::{
    rejected_round_text, wait_for_pending_clear, PendingStep, SplitAction, SplitError, Splitter,
};
use wallet_performance::metrics::recorder::{MetricsCollector, Timing};
use wallet_performance::time::{Timestamp, MAX_SECS};

const SEC: u128 = 1_000_000_000;

fn balance(available: u64, pending_incoming: u64, pending_outgoing: u64) -> WalletBalance {
    WalletBalance { available, pending_incoming, pending_outgoing, locked: 0 }
}

fn timing() -> Timing {
    let t = Timestamp { secs: 1, nanos: 0 };
    Timing { start: t, end: t, duration_ms: 4 }
}

fn result(accepted: bool, error: Option<&str>, fee: Option<u64>) -> SendResult {
    SendResult { tx_id: "5".to_string(), accepted, error: error.map(|e| e.to_string()), fee }
}

fn key(b: u8) -> String {
    let mut hex = format!("{:02x}", b);
    hex.push_str(&"00".repeat(31));
    hex
}

fn entry(index: usize) -> AddressPoolEntry {
    AddressPoolEntry { index, address_base58: "a".to_string(), view_key_hex: key(1), spend_key_hex: key(2) }
}

#[test]
fn pending_transactions_are_waited_for() {
    assert_eq!(wait_for_pending_clear(balance(1, 0, 0), 0, 600), PendingStep::Clear);
    assert_eq!(wait_for_pending_clear(balance(1, 0, 0), 601 * SEC, 600), PendingStep::Clear);
    assert_eq!(wait_for_pending_clear(balance(1, 1, 0), 600 * SEC, 600), PendingStep::Wait { secs: 30 });
    assert_eq!(wait_for_pending_clear(balance(1, 0, 1), 600 * SEC + 1, 600), PendingStep::TimedOut);
}

#[test]
fn a_split_goes_in_rounds_with_waits() {
    let mut c = MetricsCollector::new();
    let mut run = Splitter::split(20_000_000, 120, 50, 360);
    let mut counts = Vec::new();
    loop {
        match run.next() {
            SplitAction::Split { round, amount_per_utxo, count } => {
                assert_eq!((round, amount_per_utxo), (counts.len() as u64 + 1, 20_000_000));
                counts.push(count);
                assert!(run.settle_round(&mut c, "w", Ok(result(true, None, Some(2))), timing()).is_ok());
                assert_eq!(run.next(), SplitAction::AwaitConfirmation { max_wait_secs: 3600 });
                run.settle_confirmation();
            }
            SplitAction::Done { rounds } => {
                assert_eq!(rounds, 3);
                break;
            }
            SplitAction::AwaitConfirmation { .. } => unreachable!(),
        }
    }
    assert_eq!(counts, vec![50, 50, 20]);
    let txs = c.get_transactions();
    assert_eq!(txs.len(), 3);
    assert_eq!((txs[2].scenario.as_str(), txs[2].tx_type.as_str(), txs[2].amount), ("utxo_split", "split_round_3", 400_000_000));
    assert_eq!(c.total_fees(), 6);
}

#[test]
fn nothing_to_split_takes_no_round() {
    assert_eq!(Splitter::split(1, 0, 50, 1).next(), SplitAction::Done { rounds: 0 });
}

#[test]
fn splits_that_cannot_be_carried_out_are_not_accepted() {
    assert!(Splitter::accepts(1, 1, 1, 1));
    assert!(!Splitter::accepts(1, 1, 0, 1));
    assert!(!Splitter::accepts(u64::MAX, 2, 2, 1));
    assert!(!Splitter::accepts(1, 1, 1, u64::MAX));
    assert!(Splitter::accepts(u64::MAX, 0, 0, u64::MAX));
    assert_eq!(Splitter::split(u64::MAX, 0, 0, u64::MAX).next(), SplitAction::Done { rounds: 0 });
}

#[test]
fn a_rejected_round_is_recorded_and_ends_the_split() {
    let mut c = MetricsCollector::new();
    let mut run = Splitter::split(10, 5, 2, 1);
    let e = run.settle_round(&mut c, "w", Ok(result(false, Some("no \"funds\""), None)), timing()).unwrap_err();
    assert_eq!(e.message(), "Split round 1 rejected: Some(\"no \\\"funds\\\"\")");
    assert_eq!(c.get_transactions().len(), 1);
    let e = SplitError::Rejected { round: 2, error: None };
    assert_eq!(e.message(), "Split round 2 rejected: None");
}

#[test]
fn a_failed_round_is_not_recorded() {
    let mut c = MetricsCollector::new();
    let mut run = Splitter::split(10, 5, 2, 1);
    let e = run.settle_round(&mut c, "w", Err("gone".to_string()), timing()).unwrap_err();
    assert_eq!(e.message(), "Split round 1 failed");
    assert!(matches!(e, SplitError::Failed { cause, .. } if cause == "gone"));
    assert!(c.get_transactions().is_empty());
    assert_eq!(run.next(), SplitAction::Split { round: 1, amount_per_utxo: 10, count: 2 });
}

#[test]
fn consolidation_keeps_the_fee_reserve() {
    assert_eq!(Consolidator::consolidate(balance(0, 9, 9)), ConsolidationPlan::NoFunds);
    assert_eq!(Consolidator::consolidate(balance(10_000, 0, 0)), ConsolidationPlan::TooLow);
    assert_eq!(Consolidator::consolidate(balance(10_001, 0, 0)), ConsolidationPlan::Send { amount: 1 });
}

#[test]
fn consolidation_ends_with_its_errors() {
    assert_eq!(Consolidator::settle_send(Ok(result(true, None, None))).unwrap(), "5");
    let e = Consolidator::settle_send(Ok(result(false, Some("x"), None))).unwrap_err();
    assert_eq!(e.message(), "Consolidation rejected: Some(\"x\")");
    let e = Consolidator::settle_send(Err("y".to_string())).unwrap_err();
    assert_eq!(e.message(), "Consolidation send failed");
    assert!(matches!(e, ConsolidateError::SendFailed { cause } if cause == "y"));
}

#[test]
fn consolidation_waits_to_be_mined() {
    let status = |mined_height| {
        Some(TransactionStatus { tx_id: "5".to_string(), status: "s".to_string(), mined_height, confirmations: None })
    };
    assert!(Consolidator::keeps_waiting(0, 360, &None));
    assert!(Consolidator::keeps_waiting(359 * SEC, 360, &status(None)));
    assert!(!Consolidator::keeps_waiting(1, 360, &status(Some(9))));
    assert!(!Consolidator::keeps_waiting(360 * SEC, 360, &None));
}

#[test]
fn balances_reconcile_within_the_tolerance() {
    let mut c = MetricsCollector::new();
    let mut w = wallet_performance::metrics::recorder::TransactionRecord::of_send(
        "w", "s", "t", 0, &result(true, None, Some(40)), timing(),
    );
    w.accepted = true;
    c.record_transaction(w);
    assert_eq!(Reconciler::verify_balance(balance(900, 60, 0), 1000, &c, 0), (960, 960, true));
    assert_eq!(Reconciler::verify_balance(balance(900, 50, 0), 1000, &c, 10), (950, 960, true));
    assert_eq!(Reconciler::verify_balance(balance(900, 49, 0), 1000, &c, 10), (949, 960, false));
    assert_eq!(Reconciler::verify_balance(balance(971, 0, 0), 1000, &c, 10), (971, 960, false));
    assert_eq!(Reconciler::verify_balance(balance(0, 0, 0), 30, &c, 0), (0, 0, true));
    let stable = balance(7, 7, 7);
    assert_eq!(Reconciler::checkpoint(stable, balance(960, 0, 0), 1000, &c, 0), (stable, false));
    assert_eq!(Reconciler::checkpoint(stable, balance(1, 0, 0), 1000, &c, 0), (stable, true));
}

#[test]
fn accounts_are_registered_where_they_are_missing() {
    let entries = vec![entry(0), entry(7), entry(9)];
    let mut r = Registration::new();
    assert!(matches!(r.step(&entries, true), Ok(RegisterStep::Skip)));
    assert!(matches!(r.step(&entries, false), Ok(RegisterStep::Create { account_name }) if account_name == "pool_7"));
    assert!(matches!(r.step(&entries, true), Ok(RegisterStep::Skip)));
    assert_eq!((r.next, r.registered), (3, 1));
}

#[test]
fn registration_refuses_keys_that_are_none() {
    let mut bad = entry(4);
    bad.view_key_hex = "no".to_string();
    let mut r = Registration::new();
    assert_eq!(r.step(&vec![bad.clone()], false).unwrap_err(), "Invalid view key hex for pool entry 4");
    assert!(r.step(&vec![bad], true).is_ok());
    let mut bad = entry(5);
    bad.spend_key_hex = "ff".repeat(32);
    assert_eq!(Registration::new().step(&vec![bad], false).unwrap_err(), "Invalid spend key hex for pool entry 5");
}

#[test]
fn birthdays_of_pool_accounts_are_those_of_the_main_account() {
    assert_eq!(Drainer::pool_birthday(Some(1234)), 1234);
    assert_eq!(Drainer::pool_birthday(Some(65_536 + 3)), (65_539i64) as u16);
    assert_eq!(Drainer::pool_birthday(None), 0);
}

#[test]
fn scans_go_on_behind_the_last_block() {
    let mut scan = PoolScan::new(Some(522_100));
    assert_eq!((scan.start_height, scan.blocks_to_scan()), (522_000, 100));
    assert_eq!(scan.batch_done(Some(522_024), true), ScanNext::FetchFrom { height: 522_025 });
    assert_eq!(scan.start_height, 522_025);
    assert_eq!(scan.batch_done(Some(522_049), false), ScanNext::Stop);
    assert_eq!(scan.batch_done(None, true), ScanNext::Stop);
    assert_eq!(scan.final_tip_height(Some(9)), 9);
    assert_eq!(scan.final_tip_height(None), 522_100);
    assert_eq!(PoolScan::new(None).blocks_to_scan(), 0);
}

#[test]
fn outputs_are_counted_once() {
    let mut scan = PoolScan::new(None);
    assert_eq!(scan.inserted(&Ok(3)), InsertStep::Credit { output_id: 3 });
    assert_eq!(scan.inserted(&Err("UNIQUE constraint failed: outputs".to_string())), InsertStep::Known);
    assert_eq!(scan.inserted(&Err("disk full".to_string())), InsertStep::Failed);
    assert_eq!(scan.total_outputs, 1);
}

#[test]
fn credits_are_dated_by_the_block() {
    let now = Timestamp { secs: 77, nanos: 5 };
    assert_eq!(
        Drainer::credit(1, 2, 30, 1_700_000_000, 522_010, now),
        BalanceCredit {
            account_id: 1,
            output_id: 2,
            credit: 30,
            effective_date: Timestamp { secs: 1_700_000_000, nanos: 0 },
            effective_height: 522_010,
        }
    );
    let last = MAX_SECS as u64;
    assert_eq!(Drainer::credit(1, 2, 3, last, 4, now).effective_date, Timestamp { secs: MAX_SECS, nanos: 0 });
    assert_eq!(Drainer::credit(1, 2, 3, last + 1, 4, now).effective_date, now);
    assert_eq!(Drainer::credit(1, 2, 3, u64::MAX, 4, now).effective_date, Timestamp { secs: -1, nanos: 0 });
    assert_eq!(Drainer::credit(1, 2, 3, 1 << 63, 4, now).effective_date, now);
}

#[test]
fn sweeps_send_all_but_the_reserve() {
    assert!(matches!(Drainer::plan_sweep(&entry(3), None), SweepPlan::Skip));
    assert!(matches!(Drainer::plan_sweep(&entry(3), Some(0)), SweepPlan::Skip));
    assert!(matches!(Drainer::plan_sweep(&entry(3), Some(10_000)), SweepPlan::TooLow));
    match Drainer::plan_sweep(&entry(3), Some(50_000)) {
        SweepPlan::Sweep { request } => {
            assert_eq!(request.account_name, "pool_3");
            assert_eq!(request.idempotency_key, "drain_pool_3");
            assert_eq!((request.amount, request.lock_secs), (40_000, 3600));
        }
        _ => panic!("a sweep is due"),
    }
}

#[test]
fn only_broadcast_sweeps_count() {
    let mut t = DrainTotals::new();
    t.settle(40_000, 300, true);
    t.settle(1, 1, false);
    t.settle(5, 2, true);
    assert_eq!(t, DrainTotals { total_drained: 40_005, total_fees: 302, accounts_drained: 2 });
    assert!(t.can_add(1, 1));
    assert!(!t.can_add(u64::MAX, 1));
    assert!(!t.can_add(1, u64::MAX));
}

#[test]
fn the_drain_can_be_limited() {
    let entries = || vec![entry(0), entry(1), entry(2)];
    assert_eq!(Drainer::limit_entries(entries(), 0).len(), 3);
    assert_eq!(Drainer::limit_entries(entries(), 2).iter().map(|e| e.index).collect::<Vec<_>>(), vec![0, 1]);
    assert_eq!(Drainer::limit_entries(entries(), 3).len(), 3);
    assert_eq!(Drainer::limit_entries(entries(), 9).len(), 3);
}

#[test]
fn a_drain_skips_what_fails_and_counts_what_is_broadcast() {
    let mut run = DrainRun::new();
    run.step(DrainEvent::Held { available: None });
    run.step(DrainEvent::Held { available: Some(10_000) });
    assert_eq!(run.next, 2);
    run.step(DrainEvent::Held { available: Some(30_000) });
    assert_eq!((run.stage, run.amount), (DrainStage::Preparing, 20_000));
    run.step(DrainEvent::PrepareFailed);
    run.step(DrainEvent::Held { available: Some(30_000) });
    run.step(DrainEvent::Prepared { fee: 7 });
    run.step(DrainEvent::SignFailed);
    run.step(DrainEvent::Held { available: Some(30_000) });
    run.step(DrainEvent::Prepared { fee: 7 });
    run.step(DrainEvent::Signed);
    run.step(DrainEvent::BroadcastFailed);
    assert_eq!((run.next, run.totals.accounts_drained), (5, 0));
    run.step(DrainEvent::Held { available: Some(30_001) });
    run.step(DrainEvent::Prepared { fee: 8 });
    run.step(DrainEvent::Signed);
    run.step(DrainEvent::Broadcast);
    assert_eq!(run.next, 6);
    assert_eq!(run.totals, DrainTotals { total_drained: 20_001, total_fees: 8, accounts_drained: 1 });
}

#[test]
fn keys_are_judged_view_key_first() {
    assert!(judge_keys(3, true, true).is_ok());
    assert_eq!(judge_keys(3, false, false).unwrap_err(), "Invalid view key hex for pool entry 3");
    assert_eq!(judge_keys(3, true, false).unwrap_err(), "Invalid spend key hex for pool entry 3");
    assert!(Drainer::judge_sweep_keys(true, true).is_ok());
    assert_eq!(Drainer::judge_sweep_keys(false, true).unwrap_err(), "Invalid view key hex");
    assert_eq!(Drainer::judge_sweep_keys(true, false).unwrap_err(), "Invalid spend key hex");
}

#[test]
fn registration_settles_what_it_is_told() {
    let mut r = Registration::new();
    assert!(matches!(r.settle(5, true, Err("x".to_string())), Ok(RegisterStep::Skip)));
    assert_eq!(r.settle(5, false, Err("x".to_string())).unwrap_err(), "x");
    assert!(matches!(r.settle(5, false, Ok(())), Ok(RegisterStep::Create { account_name }) if account_name == "pool_5"));
    assert_eq!((r.next, r.registered), (2, 1));
}

#[test]
fn found_outputs_are_planned_with_their_reference() {
    let found = FoundOutput { output_hash: [9u8; 32], value: 4, key_index: 0 };
    let plan = Drainer::plan_output(6, found, vec![1, 2]);
    assert_eq!((plan.account_name.as_str(), plan.value, plan.output_hash), ("pool_6", 4, [9u8; 32]));
    assert_eq!(plan.payment_reference, vec![1, 2]);
}

#[test]
fn rejections_tell_the_error_in_debug_form() {
    assert_eq!(rejected_round_text(4, "None"), "Split round 4 rejected: None");
    assert_eq!(rejected_text("Some(\"x\")"), "Consolidation rejected: Some(\"x\")");
}

#[test]
fn a_second_scan_of_a_chain_adds_no_credit() {
    let mut stored: Vec<[u8; 32]> = Vec::new();
    let chain = [[1u8; 32], [2; 32], [1; 32]];
    let mut credits = Vec::new();
    for pass in 0..2 {
        let mut scan = PoolScan::new(Some(600_000));
        for hash in chain {
            let outcome = if stored.contains(&hash) {
                Err("UNIQUE constraint failed: outputs.output_hash".to_string())
            } else {
                stored.push(hash);
                Ok(stored.len() as i64)
            };
            match scan.inserted(&outcome) {
                InsertStep::Credit { output_id } => credits.push((pass, output_id)),
                step => assert_eq!(step, InsertStep::Known),
            }
        }
        assert_eq!(scan.total_outputs, if pass == 0 { 2 } else { 0 });
    }
    assert_eq!(credits, vec![(0, 1), (0, 2)]);
}

#[test]
fn a_second_registration_adds_nothing() {
    let entries = vec![entry(4), entry(1), entry(4)];
    let mut accounts: Vec<String> = vec!["pool_1".to_string()];
    for registered in [1, 0] {
        let mut registration = Registration::new();
        while registration.next < entries.len() {
            let exists = accounts.contains(&Drainer::account_name(entries[registration.next].index));
            match registration.step(&entries, exists).unwrap() {
                RegisterStep::Skip => assert!(exists),
                RegisterStep::Create { account_name } => accounts.push(account_name),
            }
        }
        assert_eq!(registration.registered, registered);
        assert_eq!(accounts, vec!["pool_1", "pool_4"]);
    }
}
