use wallet_performance::address_pool::{AddressPool, AddressPoolEntry, Recipient};
use wallet_performance::driver::SendResult;
use wallet_performance::load::patterns::{
    interval, LoadAction, LoadGenerator, LoadPattern, LoadRun, Rate,
};
use wallet_performance::metrics::recorder::{MetricsCollector, Timing};
use wallet_performance::time::{whole_millis, Timestamp};

const SEC: u128 = 1_000_000_000;

fn timing() -> Timing {
    Timing {
        start: Timestamp { secs: 1, nanos: 0 },
        end: Timestamp { secs: 2, nanos: 0 },
        duration_ms: 1000,
    }
}

fn accepted(fee: Option<u64>) -> Result<SendResult, String> {
    Ok(SendResult { tx_id: "7".to_string(), accepted: true, error: None, fee })
}

fn drive(mut run: LoadRun) -> Vec<usize> {
    let mut sizes = Vec::new();
    for _ in 0..10_000 {
        match run.next(0) {
            LoadAction::Send { recipients, .. } => sizes.push(recipients),
            LoadAction::Finish => return sizes,
            LoadAction::Draw { .. } => unreachable!(),
        }
    }
    panic!("no end");
}

#[test]
fn intervals_are_those_of_the_rate() {
    assert_eq!(interval(1, Rate { txs: 5, per_secs: 1 }), 200_000_000);
    assert_eq!(interval(50, Rate { txs: 5, per_secs: 1 }), 10 * SEC);
    assert_eq!(interval(1, Rate { txs: 1, per_secs: 60 }), 60 * SEC);
    assert_eq!(interval(1, Rate { txs: 3, per_secs: 1 }), 333_333_333);
    assert_eq!(interval(2, Rate { txs: 3, per_secs: 1 }), 666_666_667);
    assert_eq!(interval(0, Rate { txs: 3, per_secs: 1 }), 0);
}

#[test]
fn rates_must_be_positive_and_intervals_computable() {
    assert!(Rate { txs: 1, per_secs: 1 }.is_usable(1));
    assert!(!Rate { txs: 0, per_secs: 1 }.is_usable(1));
    assert!(!Rate { txs: 1, per_secs: 0 }.is_usable(1));
    assert!(!Rate { txs: 1, per_secs: u64::MAX }.is_usable(2));
    assert!(LoadGenerator::accepts(LoadPattern::Burst { count: 0 }, 0));
    assert!(!LoadGenerator::accepts(
        LoadPattern::Ramp { start_txs: 0, max_txs: 1, step_txs: 1, per_secs: 1, step_interval_secs: 1, duration_secs: 1 },
        1
    ));
    assert!(!LoadGenerator::accepts(LoadPattern::Poisson { rate: Rate { txs: 0, per_secs: 1 }, duration_secs: 1 }, 1));
    let at_once = LoadPattern::Poisson { rate: Rate { txs: 0, per_secs: 1 }, duration_secs: 0 };
    assert!(LoadGenerator::accepts(at_once, 1));
    assert_eq!(LoadGenerator::execute(at_once).next(0), LoadAction::Finish);
    let flat = LoadPattern::Ramp { start_txs: 0, max_txs: 1, step_txs: 1, per_secs: 0, step_interval_secs: 1, duration_secs: 0 };
    assert!(LoadGenerator::accepts(flat, 1));
    assert_eq!(LoadGenerator::execute(flat).next(0), LoadAction::Finish);
    assert!(!LoadGenerator::accepts(LoadPattern::Constant { rate: Rate { txs: 0, per_secs: 1 }, duration_secs: 0 }, 1));
}

#[test]
fn a_constant_load_sends_600_times_in_two_minutes() {
    let pattern = LoadPattern::Constant { rate: Rate { txs: 5, per_secs: 1 }, duration_secs: 120 };
    let mut run = LoadGenerator::execute(pattern);
    let mut now = 0u128;
    let mut sends = 0;
    while let LoadAction::Send { recipients, batched, pause_ns } = run.next(now) {
        assert_eq!((recipients, batched), (1, false));
        sends += recipients;
        now += pause_ns;
    }
    assert_eq!(sends, 600);
    assert_eq!(now, 120 * SEC);
}

#[test]
fn batches_keep_the_pace_of_single_sends() {
    let pattern = LoadPattern::Constant { rate: Rate { txs: 5, per_secs: 1 }, duration_secs: 120 };
    let mut run = LoadGenerator::execute_with_batch(pattern, 50);
    let mut now = 0u128;
    let mut sends = Vec::new();
    while let LoadAction::Send { recipients, batched, pause_ns } = run.next(now) {
        assert!(batched);
        sends.push(recipients);
        now += pause_ns;
    }
    assert_eq!(sends, vec![50; 12]);
}

#[test]
fn bursts_reach_their_count_whatever_the_batch_size() {
    let sizes = |count, batch| drive(LoadGenerator::execute_with_batch(LoadPattern::Burst { count }, batch));
    assert_eq!(sizes(50, 1), vec![1; 50]);
    assert_eq!(sizes(50, 0), vec![1; 50]);
    assert_eq!(sizes(50, 50), vec![50]);
    assert_eq!(sizes(50, 20), vec![20, 20, 10]);
    assert_eq!(sizes(50, 60), vec![50]);
    assert!(sizes(0, 7).is_empty());
}

#[test]
fn a_last_batch_of_one_is_still_a_batch() {
    let mut run = LoadGenerator::execute_with_batch(LoadPattern::Burst { count: 3 }, 2);
    assert_eq!(run.next(0), LoadAction::Send { recipients: 2, batched: true, pause_ns: 0 });
    assert_eq!(run.next(0), LoadAction::Send { recipients: 1, batched: true, pause_ns: 0 });
    assert_eq!(run.next(0), LoadAction::Finish);
}

#[test]
fn a_ramp_rises_step_by_step_to_its_maximum() {
    let pattern = LoadPattern::Ramp {
        start_txs: 1, max_txs: 5, step_txs: 1, per_secs: 60, step_interval_secs: 360, duration_secs: 1800,
    };
    let mut run = LoadGenerator::execute(pattern);
    let pause = |run: &mut LoadRun, secs: u128| match run.next(secs * SEC) {
        LoadAction::Send { pause_ns, .. } => pause_ns / SEC,
        _ => 0,
    };
    assert_eq!(pause(&mut run, 0), 60);
    assert_eq!(pause(&mut run, 360), 60);
    assert_eq!(pause(&mut run, 361), 30);
    assert_eq!(pause(&mut run, 721), 30);
    assert_eq!(pause(&mut run, 722), 20);
    assert_eq!(pause(&mut run, 1083), 15);
    assert_eq!(pause(&mut run, 1444), 12);
    assert_eq!(pause(&mut run, 1799), 12);
    assert_eq!(run.next(1800 * SEC), LoadAction::Finish);
}

#[test]
fn a_ramp_does_not_pass_its_maximum() {
    let pattern = LoadPattern::Ramp {
        start_txs: 1, max_txs: 4, step_txs: 2, per_secs: 1, step_interval_secs: 1, duration_secs: 100,
    };
    let mut run = LoadGenerator::execute_with_batch(pattern, 2);
    for t in [2u128, 4, 6, 8] {
        run.next(t * SEC);
    }
    assert_eq!(run.current_txs, 4);
    assert_eq!(run.next(9 * SEC), LoadAction::Send { recipients: 2, batched: true, pause_ns: SEC / 2 });
}

#[test]
fn poisson_waits_before_each_send() {
    let rate = Rate { txs: 1, per_secs: 2 };
    let mut run = LoadGenerator::execute(LoadPattern::Poisson { rate, duration_secs: 120 });
    assert_eq!(run.next(0), LoadAction::Draw { recipients: 1, rate });
    assert_eq!(run.next(SEC), LoadAction::Send { recipients: 1, batched: false, pause_ns: 0 });
    assert_eq!(run.next(SEC), LoadAction::Draw { recipients: 1, rate });
    assert_eq!(run.next(120 * SEC), LoadAction::Finish);
}

#[test]
fn sends_are_settled_and_recorded() {
    let mut c = MetricsCollector::new();
    let r = LoadGenerator::send_and_record(&mut c, "old_wallet", "s", 50, accepted(Some(3)), timing());
    assert!(r.accepted);
    let r = LoadGenerator::send_and_record(&mut c, "old_wallet", "s", 50, Err("down".to_string()), timing());
    assert!(!r.accepted);
    assert_eq!(r.error.as_deref(), Some("down"));
    assert_eq!(r.tx_id, "");
    let txs = c.get_transactions();
    assert_eq!((txs[0].tx_type.as_str(), txs[0].amount, txs[0].fee, txs[0].accepted), ("send", 50, Some(3), true));
    assert_eq!((txs[1].error.as_deref(), txs[1].accepted, txs[1].fee), (Some("down"), false, None));
    assert_eq!(c.total_fees(), 3);
}

#[test]
fn batches_are_recorded_with_their_size_and_total() {
    let mut c = MetricsCollector::new();
    let recipients: Vec<Recipient> =
        (0..12).map(|i| Recipient { address: format!("a{}", i), amount: 10 }).collect();
    LoadGenerator::send_batch_and_record(&mut c, "new_wallet", "s", &recipients, accepted(None), timing());
    let txs = c.get_transactions();
    assert_eq!((txs[0].tx_type.as_str(), txs[0].amount), ("batch_12", 120));
}

#[test]
fn elapsed_times_are_told_in_whole_milliseconds() {
    assert_eq!(whole_millis(1_999_999), 1);
    assert_eq!(whole_millis(0), 0);
    let long = (u64::MAX as u128 + 3) * 1_000_000;
    assert_eq!(whole_millis(long), std::time::Duration::from_millis(2).as_millis() as u64);
}

fn pool_of(n: usize) -> AddressPool {
    let entry = |index: usize| AddressPoolEntry {
        index,
        address_base58: format!("address {}", index),
        view_key_hex: String::new(),
        spend_key_hex: String::new(),
    };
    AddressPool::from_entries(&(0..n).map(entry).collect())
}

fn payments(pool: &mut AddressPool, count: u64, batch_size: usize) -> (Vec<(String, u64)>, Vec<(usize, bool)>) {
    let mut run = LoadGenerator::execute_with_batch(LoadPattern::Burst { count }, batch_size);
    let mut paid = Vec::new();
    let mut sends = Vec::new();
    while let LoadAction::Send { recipients, batched, .. } = run.next(0) {
        sends.push((recipients, batched));
        paid.extend(pool.next_recipients(recipients, 7).into_iter().map(|r| (r.address, r.amount)));
    }
    (paid, sends)
}

#[test]
fn a_burst_pays_the_pool_in_turn() {
    let mut pool = pool_of(3);
    pool.next_address();
    let (paid, sends) = payments(&mut pool, 7, 3);
    let expected: Vec<(String, u64)> =
        [1, 2, 0, 1, 2, 0, 1].iter().map(|i| (format!("address {}", i), 7)).collect();
    assert_eq!(paid, expected);
    assert_eq!(sends, vec![(3, true), (3, true), (1, true)]);
}

#[test]
fn the_batch_size_changes_no_payment() {
    let (single, sends) = payments(&mut pool_of(4), 9, 1);
    assert_eq!(single.len(), 9);
    assert!(sends.iter().all(|s| *s == (1, false)));
    for batch_size in [0, 2, 5, 9, 50] {
        assert_eq!(payments(&mut pool_of(4), 9, batch_size).0, single);
    }
}

#[test]
fn every_send_of_a_run_is_recorded_whatever_it_came_to() {
    let mut collector = MetricsCollector::new();
    let mut run = LoadGenerator::execute(LoadPattern::Burst { count: 3 });
    let outcomes = [accepted(Some(2)), Err("down".to_string()), accepted(None)];
    let mut sent = 0;
    while let LoadAction::Send { .. } = run.next(0) {
        LoadGenerator::send_and_record(&mut collector, "w", "s", 5, outcomes[sent].clone(), timing());
        sent += 1;
    }
    let records = collector.get_transactions();
    assert_eq!(sent, 3);
    assert_eq!(records.iter().map(|r| r.accepted).collect::<Vec<_>>(), vec![true, false, true]);
    assert_eq!(records.iter().map(|r| r.fee).collect::<Vec<_>>(), vec![Some(2), None, None]);
    assert_eq!(records[1].error.as_deref(), Some("down"));
    assert!(records.iter().all(|r| r.wallet == "w" && r.scenario == "s"));
    assert_eq!((collector.snapshot_count(), collector.scan_count()), (0, 0));
}
