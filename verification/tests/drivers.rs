use wallet_performance::driver::new_wallet_driver::{
    account_balance, account_error, needs_unlock, prepare_failed, settle_broadcast, settle_sign,
    settle_request, sign_failed, supervise, sync_step, sync_timeout_error, ChangeStep, CoinSplit, CoinSplitAction,
    ScanEvent, ScanExit, ScanProgress, ScannerState, Supervise, SyncStep, SyncWake,
    TrackedTransaction,
};
use wallet_performance::driver::old_wallet_driver::{OldWalletDriver, TransactionReply, TransferReply};
use wallet_performance::driver::old_wallet_process::{
    kill_step, network_arg, ChildHold, ChildState, GrpcStep, GrpcWait, KillStep, OldWalletProcessConfig, ScanWait,
    ScanWaitStep, Signal,
};
use wallet_performance::driver::{settle, unspent, WalletBalance, WatchStep};

const SEC: u128 = 1_000_000_000;

fn balance(available: u64, pending_incoming: u64) -> WalletBalance {
    WalletBalance { available, pending_incoming, pending_outgoing: 0, locked: 0 }
}

fn driver() -> OldWalletDriver {
    OldWalletDriver::new("http://127.0.0.1:18143".to_string(), 5)
}

fn seen(id: &str, status: &str, height: u64) -> TrackedTransaction {
    TrackedTransaction { id: id.to_string(), status: status.to_string(), mined_height: height, confirmations: 1 }
}

#[test]
fn transfers_go_to_stealth_addresses() {
    let r = driver().transfer_request("addr", 9);
    assert_eq!((r.address.as_str(), r.amount, r.fee_per_gram, r.payment_type, r.single_tx), ("addr", 9, 5, 2, false));
    assert_eq!(driver().name(), "old_wallet");
    assert_eq!(driver().grpc_addr(), "http://127.0.0.1:18143");
    assert_eq!(driver().connect_error(), "Failed to connect to old wallet gRPC at http://127.0.0.1:18143");
}

#[test]
fn transfers_come_to_send_results() {
    let ok = TransferReply { is_success: true, transaction_id: 123, fee: Some(4), failure_message: "x".to_string() };
    let r = driver().send_transaction(Some(ok)).unwrap();
    assert_eq!((r.tx_id.as_str(), r.accepted, r.error, r.fee), ("123", true, None, Some(4)));
    assert_eq!(driver().parse_tx_id(&r.tx_id), Ok(123));
    let bad = TransferReply { is_success: false, transaction_id: 123, fee: Some(4), failure_message: "x".to_string() };
    let r = driver().send_transaction(Some(bad)).unwrap();
    assert_eq!((r.tx_id.as_str(), r.accepted, r.error.as_deref(), r.fee), ("", false, Some("x"), None));
    assert_eq!(driver().send_transaction(None).unwrap_err(), "Transfer returned empty results");
}

#[test]
fn old_wallet_statuses() {
    let reply = |height| TransactionReply { tx_id: 8, status: -1, mined_in_block_height: height };
    let s = driver().get_transaction_status("8", Some(reply(0))).unwrap();
    assert_eq!((s.tx_id.as_str(), s.status.as_str(), s.mined_height, s.confirmations), ("8", "-1", None, None));
    assert_eq!(driver().get_transaction_status("8", Some(reply(5))).unwrap().mined_height, Some(5));
    assert_eq!(driver().get_transaction_status("8", None).unwrap_err(), "Transaction 8 not found");
    assert_eq!(driver().parse_tx_id("x8").unwrap_err(), "Invalid tx_id for old wallet");
    let all = driver().get_completed_transactions(&vec![reply(0), reply(2)]);
    assert_eq!(all.iter().map(|t| t.mined_height).collect::<Vec<_>>(), vec![None, Some(2)]);
    assert_eq!(all[1].tx_id, "8");
}

#[test]
fn old_wallet_splits_and_balances() {
    let q = driver().split_request(10, 3);
    assert_eq!((q.amount_per_split, q.split_count, q.fee_per_gram, q.lock_height), (10, 3, 5, 0));
    let r = driver().split_coins(44);
    assert_eq!((r.tx_id.as_str(), r.accepted, r.fee), ("44", true, None));
    let b = driver().get_balance(1, 2, 3, 4);
    assert_eq!((b.available, b.pending_incoming, b.pending_outgoing, b.locked), (1, 2, 3, 4));
    let u = unspent(&vec![7, 0]);
    assert_eq!(u.iter().map(|x| (x.value, x.status.as_str())).collect::<Vec<_>>(), vec![(7, "unspent"), (0, "unspent")]);
}

#[test]
fn driver_failures_become_refusals() {
    let r = settle(Err("down".to_string()));
    assert_eq!((r.tx_id.as_str(), r.accepted, r.error.as_deref(), r.fee), ("", false, Some("down"), None));
}

#[test]
fn a_balance_is_stable_when_it_stays_the_same() {
    let mut w = driver().wait_for_balance_stable(100, balance(5, 0), 0);
    assert_eq!(w.poll(0), WatchStep::Poll { secs: 10 });
    assert_eq!(w.observe(balance(5, 0), 10 * SEC), WatchStep::Poll { secs: 10 });
    assert_eq!(w.observe(balance(6, 0), 20 * SEC), WatchStep::Poll { secs: 10 });
    assert_eq!(w.observe(balance(6, 0), 50 * SEC), WatchStep::Poll { secs: 10 });
    let other = WalletBalance { locked: 9, ..balance(6, 0) };
    assert_eq!(w.observe(other, 51 * SEC), WatchStep::Stable { balance: balance(6, 0) });
}

#[test]
fn a_wait_for_a_stable_balance_ends() {
    let mut w = wallet_performance::driver::new_wallet_driver::wait_for_balance_stable(100, balance(5, 0), 2 * SEC);
    assert_eq!((w.poll_secs, w.stable_secs), (30, 60));
    assert_eq!(w.poll(100 * SEC), WatchStep::Poll { secs: 30 });
    assert_eq!(w.observe(balance(5, 1), 101 * SEC), WatchStep::TimedOut { balance: balance(5, 1) });
}

#[test]
fn the_wallet_is_started_with_its_arguments() {
    let mut c = OldWalletProcessConfig {
        binary_path: "/bin/wallet".to_string(),
        base_dir: "data/old_wallet".to_string(),
        grpc_port: 18143,
        network: "Esmeralda".to_string(),
        seed_words: "a b".to_string(),
        password: "pw".to_string(),
    };
    assert_eq!(
        c.spawn_args(),
        vec![
            "-b", "data/old_wallet", "--network", "esme", "--grpc-enabled", "--grpc-address",
            "/ip4/127.0.0.1/tcp/18143", "--password", "pw", "--seed-words", "a b", "--non-interactive-mode",
        ]
    );
    assert_eq!(c.grpc_url(), "http://127.0.0.1:18143");
    assert_eq!(c.spawn_error(), "Failed to spawn minotari_console_wallet at '/bin/wallet'");
    c.network = "NextNet".to_string();
    assert_eq!(c.spawn_args()[3], "nextnet");
}

#[test]
fn grpc_attempts_back_off() {
    let mut w = GrpcWait::new();
    let pauses: Vec<u64> = (0..8)
        .map(|_| match w.attempted(false, 0) {
            GrpcStep::Retry { after_ms } => after_ms,
            _ => 0,
        })
        .collect();
    assert_eq!(pauses, vec![100, 200, 400, 800, 1600, 3200, 5000, 5000]);
    assert_eq!(w.attempted(true, 9999 * SEC), GrpcStep::Ready);
    assert_eq!(w.attempted(false, 3600 * SEC), GrpcStep::Retry { after_ms: 5000 });
    assert_eq!(w.attempted(false, 3600 * SEC + 1), GrpcStep::TimedOut);
    assert_eq!(GrpcWait::timeout_error("u"), "Timed out after 3600s waiting for old wallet gRPC at u");
    assert!(GrpcWait::check_child(&None).is_ok());
    assert_eq!(
        GrpcWait::check_child(&Some("exit status: 1".to_string())).unwrap_err(),
        "minotari_console_wallet exited prematurely with status: exit status: 1"
    );
}

#[test]
fn a_scan_is_complete_with_a_stable_positive_balance() {
    let poll = ScanWaitStep::Poll { secs: 10 };
    let mut w = ScanWait::new();
    assert_eq!(w.observe(0, 0, 0), poll);
    assert_eq!(w.observe(0, 0, 500 * SEC), poll);
    assert_eq!(w.observe(5, 0, 510 * SEC), poll);
    assert_eq!(w.observe(5, 0, 540 * SEC), poll);
    assert_eq!(w.observe(5, 0, 541 * SEC), ScanWaitStep::Complete);
    let mut w = ScanWait::new();
    assert_eq!(w.observe(0, 1, 0), poll);
    assert_eq!(w.observe(0, 0, 31 * SEC), ScanWaitStep::Complete);
    assert!(!ScanWait::is_timed_out(3600 * SEC));
    assert!(ScanWait::is_timed_out(3601 * SEC));
}

#[test]
fn processes_are_ended_by_force_after_a_grace_time() {
    assert_eq!(kill_step(ChildState::Exited, 9 * SEC), KillStep::Done);
    assert_eq!(kill_step(ChildState::Running, 5 * SEC), KillStep::Poll { ms: 100 });
    assert_eq!(kill_step(ChildState::Running, 5 * SEC + 1), KillStep::Force);
    assert_eq!(kill_step(ChildState::Unknown, 0), KillStep::Force);
}

#[test]
fn scanner_events_move_the_tip() {
    let mut s = ScannerState::new();
    let mut p = ScanProgress { last_logged_height: 0 };
    assert!(!s.is_at_tip());
    let e = s.process_event(&ScanEvent::Started { from_height: 100 }, &mut p);
    assert!(!e.notify_tip && p.last_logged_height == 100);
    let e = s.process_event(&ScanEvent::Progress { current_height: 1099, blocks_scanned: 1 }, &mut p);
    assert!(!e.log_progress);
    let e = s.process_event(&ScanEvent::Progress { current_height: 1100, blocks_scanned: 1 }, &mut p);
    assert!(e.log_progress && p.last_logged_height == 1100);
    let e = s.process_event(&ScanEvent::Completed { final_height: 1200 }, &mut p);
    assert!(e.notify_tip && s.is_at_tip() && s.scanned_height() == 1200);
    s.process_event(&ScanEvent::MoreBlocksAvailable { last_scanned_height: 1300 }, &mut p);
    assert!(!s.is_at_tip() && s.scanned_height() == 1300);
    assert!(s.process_event(&ScanEvent::Waiting, &mut p).notify_tip && s.is_at_tip());
    s.process_event(&ScanEvent::Paused { last_scanned_height: 1 }, &mut p);
    s.process_event(&ScanEvent::Other, &mut p);
    assert!(s.is_at_tip() && s.scanned_height() == 1300);
    s.process_event(&ScanEvent::ReorgDetected { blocks_rolled_back: 1, reorg_from_height: 2 }, &mut p);
    assert!(!s.is_at_tip());
    s.process_event(&ScanEvent::Waiting, &mut p);
    s.leave_tip();
    assert!(!s.is_at_tip());
}

#[test]
fn transactions_are_known_by_their_latest_report() {
    let mut s = ScannerState::new();
    let mut p = ScanProgress { last_logged_height: 0 };
    s.process_event(&ScanEvent::TransactionsReady { transactions: vec![seen("a", "Pending", 1), seen("b", "Pending", 2)] }, &mut p);
    s.process_event(&ScanEvent::TransactionsUpdated { updated_transactions: vec![seen("a", "Mined", 7)] }, &mut p);
    let a = s.get_transaction_status("a");
    assert_eq!((a.tx_id.as_str(), a.status.as_str(), a.mined_height, a.confirmations), ("a", "Mined", Some(7), Some(1)));
    assert_eq!(s.get_transaction_status("b").status, "Pending");
    let x = s.get_transaction_status("x");
    assert_eq!((x.status.as_str(), x.mined_height, x.confirmations), ("unknown", None, None));
    let all = s.get_completed_transactions();
    assert_eq!(all.iter().map(|t| (t.tx_id.as_str(), t.status.as_str())).collect::<Vec<_>>(), vec![("a", "Mined"), ("b", "Pending")]);
}

#[test]
fn scanners_are_started_again() {
    assert_eq!(supervise(ScanExit::Clean, true), Supervise::Stop);
    assert_eq!(supervise(ScanExit::Failed, true), Supervise::Stop);
    assert_eq!(supervise(ScanExit::Panicked, true), Supervise::Restart { after_secs: 5, leave_tip: true });
    assert_eq!(supervise(ScanExit::Clean, false), Supervise::Restart { after_secs: 5, leave_tip: false });
    assert_eq!(supervise(ScanExit::Failed, false), Supervise::Restart { after_secs: 5, leave_tip: true });
}

#[test]
fn the_tip_is_waited_for() {
    assert_eq!(sync_step(SyncWake::Entered, true, 0), SyncStep::Done);
    assert_eq!(sync_step(SyncWake::Entered, false, 0), SyncStep::Wait { remaining_ns: 600 * SEC });
    assert_eq!(sync_step(SyncWake::Notified, false, 100 * SEC), SyncStep::Wait { remaining_ns: 500 * SEC });
    assert_eq!(sync_step(SyncWake::Notified, true, 700 * SEC), SyncStep::Done);
    assert_eq!(sync_step(SyncWake::Notified, false, 600 * SEC + 1), SyncStep::TimedOut);
    assert_eq!(sync_step(SyncWake::Slept, true, 0), SyncStep::TimedOut);
    assert_eq!(sync_timeout_error(), "Timed out waiting for scanner to reach tip");
}

#[test]
fn sends_end_at_the_phase_that_failed() {
    let r = prepare_failed("no utxos");
    assert_eq!((r.accepted, r.error.as_deref(), r.fee, r.tx_id.as_str()), (false, Some("Prepare failed: no utxos"), None, ""));
    let r = sign_failed("bad key", 3);
    assert_eq!((r.accepted, r.error.as_deref(), r.fee, r.tx_id.as_str()), (false, Some("Sign failed: bad key"), Some(3), ""));
    let r = settle_sign(Err("k".to_string()), 4).err().unwrap();
    assert_eq!((r.error.as_deref(), r.fee), (Some("Sign failed: k"), Some(4)));
    let r = settle_broadcast("t".to_string(), 5, Err("offline".to_string()));
    assert_eq!((r.accepted, r.error.as_deref(), r.fee, r.tx_id.as_str()), (false, Some("Broadcast failed: offline"), Some(5), "t"));
    let r = settle_broadcast("t".to_string(), 5, Ok(()));
    assert_eq!((r.accepted, r.error, r.fee, r.tx_id.as_str()), (true, None, Some(5), "t"));
}

#[test]
fn new_wallet_accounts() {
    let b = account_balance(1, 2, 3);
    assert_eq!((b.available, b.pending_incoming, b.pending_outgoing, b.locked), (1, 2, 0, 3));
    assert_eq!(account_error("default"), "Account 'default' not found");
    assert!(needs_unlock(1));
    assert!(!needs_unlock(0));
}

#[test]
fn splits_wait_for_change_between_sends() {
    let mut s = CoinSplit::new(100, 3);
    let mut log = Vec::new();
    loop {
        match s.next() {
            CoinSplitAction::Send { amount } => {
                log.push(amount);
                s.settle_send(true);
            }
            CoinSplitAction::AwaitChange { needed } => {
                log.push(needed);
                s.settle_change();
            }
            CoinSplitAction::Finish => break,
        }
    }
    assert_eq!(log, vec![100, 10_100, 100, 10_100, 100]);
    assert_eq!(CoinSplit::new(100, 0).next(), CoinSplitAction::Finish);
    assert_eq!(CoinSplit::nothing_sent().error.as_deref(), Some("No splits performed"));
    let mut s = CoinSplit::new(100, 3);
    s.settle_send(false);
    assert_eq!(s.next(), CoinSplitAction::Finish);
}

#[test]
fn change_is_waited_for() {
    assert_eq!(CoinSplit::change_step(5, 5, 9999 * SEC), ChangeStep::Enough);
    assert_eq!(CoinSplit::change_step(4, 5, 900 * SEC), ChangeStep::Wait { secs: 30 });
    assert_eq!(CoinSplit::change_step(4, 5, 900 * SEC + 1), ChangeStep::TimedOut);
}

#[test]
fn the_old_wallet_has_short_network_names() {
    assert_eq!(network_arg("esmeralda".to_string()), "esme");
    assert_eq!(network_arg("mainnet".to_string()), "mainnet");
}

#[test]
fn requests_are_made_unless_a_recipient_is_refused() {
    let q = settle_request(vec![], true, None, "key".to_string()).unwrap();
    assert_eq!((q.idempotency_key.as_str(), q.lock_secs, q.recipients.len(), q.batched), ("key", 7200, 0, true));
    assert!(!settle_request(vec![], false, None, "key".to_string()).unwrap().batched);
    assert_eq!(settle_request(vec![], true, Some("no".to_string()), "key".to_string()).unwrap_err(), "no");
}

#[test]
fn a_second_kill_signals_nothing() {
    let mut hold = ChildHold::new();
    assert!(hold.held);
    assert_eq!(hold.begin_kill(), Some(Signal::Terminate));
    assert!(!hold.held);
    assert_eq!(hold.begin_kill(), None);
    let mut gone = ChildHold::new();
    gone.lost();
    assert_eq!(gone.begin_kill(), None);
}

#[test]
fn the_last_word_of_a_scanner_counts() {
    let told = |events: Vec<ScanEvent>| {
        let mut s = ScannerState::new();
        let mut p = ScanProgress { last_logged_height: 0 };
        for event in &events {
            s.process_event(event, &mut p);
        }
        (s.is_at_tip(), s.scanned_height(), s.get_transaction_status("a").status)
    };
    let report = |status: &str| ScanEvent::TransactionsUpdated { updated_transactions: vec![seen("a", status, 3)] };
    assert_eq!(told(vec![ScanEvent::Other]), (false, 0, "unknown".to_string()));
    assert_eq!(
        told(vec![ScanEvent::Completed { final_height: 9 }, report("Mined"), ScanEvent::ReorgDetected { blocks_rolled_back: 1, reorg_from_height: 8 }]),
        (false, 9, "Mined".to_string())
    );
    assert_eq!(
        told(vec![report("Mined"), ScanEvent::MoreBlocksAvailable { last_scanned_height: 5 }, ScanEvent::Waiting, report("Lost"), ScanEvent::Other]),
        (true, 5, "Lost".to_string())
    );
}
