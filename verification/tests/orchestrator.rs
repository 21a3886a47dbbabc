use wallet_performance::config::{Command, ScenarioName, SetupConfig, SetupState, WalletConfig};
use wallet_performance::driver::{SendResult, TransactionStatus, UtxoInfo, WalletBalance};
use wallet_performance::load::patterns::{LoadGenerator, LoadPattern};
use wallet_performance::metrics::recorder::{MetricsCollector, Timing};
use wallet_performance::orchestrator::{
    all_scenarios, check_budget, check_context, count_usable_utxos, create_drivers, drain_network, funding_step,
    funds_timeout_error, funds_unsettled, get_scenario, init_address_pool, missing_pool_error, open_address_pool,
    plan_command, record_warmup, seed_source, settle_drivers, settle_restored, setup_state, FundingStep, ReportDir, SeedSource, Step,
    UtxoAction, UtxoEvent, UtxoGuard, WalletCheck, WalletDb, WalletKind, warmup_recipient,
};
use wallet_performance::scenarios::inbound_flood::InboundWatch;
use wallet_performance::scenarios::pool_payout::PoolPayoutScenario;
use wallet_performance::scenarios::{Scenario, Work};
use wallet_performance::tari::Network;
use wallet_performance::time::Timestamp;

const SEC: u128 = 1_000_000_000;

fn balance(available: u64, pending_incoming: u64, pending_outgoing: u64) -> WalletBalance {
    WalletBalance { available, pending_incoming, pending_outgoing, locked: 0 }
}

fn timing() -> Timing {
    let t = Timestamp { secs: 1, nanos: 0 };
    Timing { start: t, end: t, duration_ms: 0 }
}

fn words() -> Vec<String> {
    vec!["one".to_string(), "two".to_string()]
}

fn state(words: &str) -> SetupState {
    let mut s = setup_state(&SetupConfig::default(), "db", &vec![], "old", "new");
    s.new_wallet_seed_words = words.to_string();
    s
}

#[test]
fn scenarios_have_their_budgets_and_utxos() {
    let profile: Vec<(&str, u64, u64, u64)> = all_scenarios()
        .iter()
        .map(|n| get_scenario(*n, 1))
        .map(|s| (s.name, s.budget, s.required_utxos, s.split_amount))
        .collect();
    assert_eq!(
        profile,
        vec![
            ("pool_payout", 40_000_000_000, 700, 55_000_000),
            ("inbound_flood", 20_000_000_000, 80, 100_000_000),
            ("bidirectional", 20_000_000_000, 100, 100_000_000),
            ("fragmentation", 10_000_000_000, 100, 100_000_000),
            ("lock_contention", 10_000_000_000, 100, 100_000_000),
        ]
    );
    let pool = get_scenario(ScenarioName::PoolPayout, 50);
    assert_eq!((pool.required_utxos, pool.split_amount), (20, 2_505_000_000));
    assert_eq!(PoolPayoutScenario::new().required_utxos(), 700);
    assert_eq!(PoolPayoutScenario::new().with_batch_size(2).split_amount(), 105_000_000);
}

#[test]
fn scenarios_have_their_phases() {
    let labels = |n| get_scenario(n, 1).phases.iter().map(|p| p.label).collect::<Vec<_>>();
    assert_eq!(labels(ScenarioName::PoolPayout), vec!["pool_payout", "pool_payout_burst"]);
    assert_eq!(labels(ScenarioName::InboundFlood), vec!["inbound_flood_send", "inbound_flood_detect"]);
    assert_eq!(labels(ScenarioName::Bidirectional), vec!["bidirectional"]);
    assert_eq!(labels(ScenarioName::LockContention), vec!["lock_contention_10", "lock_contention_25", "lock_contention_50"]);
    let f = get_scenario(ScenarioName::Fragmentation, 1);
    assert_eq!(f.phases[0].work, Work::Split { amount_per_utxo: 20_000_000, target_count: 400, max_per_round: 50 });
    let amounts: Vec<u64> = f.phases[1..]
        .iter()
        .map(|p| match p.work {
            Work::SendToSelf { amount } => amount,
            _ => 0,
        })
        .collect();
    assert_eq!(amounts, vec![50_000_000, 200_000_000, 1_000_000_000, 5_000_000_000]);
    assert_eq!(f.phases[4].label, "fragmentation_5000_tXTM");
    assert_eq!(f.phases[4].work.tx_type(), "aggregation_send");
    let flood = get_scenario(ScenarioName::InboundFlood, 1);
    assert_eq!(flood.phases[1].work, Work::Watch { duration_secs: 600, poll_secs: 15 });
    assert_eq!(flood.phases[1].work.tx_type(), "inbound_detect");
    let lock = get_scenario(ScenarioName::LockContention, 1);
    assert_eq!(lock.phases[1].work, Work::SendToPool { count: 25, amount: 50_000_000, cooldown_secs: 10 });
    assert_eq!(lock.phases[1].work.tx_type(), "sequential_send");
}

#[test]
fn the_patterns_of_all_scenarios_can_be_run() {
    for name in all_scenarios() {
        for batch in [1, 50] {
            for phase in get_scenario(name, batch).phases {
                if let Work::Load { pattern, batch_size, .. } = phase.work {
                    assert!(LoadGenerator::accepts(pattern, batch_size));
                    if name == ScenarioName::PoolPayout {
                        assert_eq!(batch_size, batch);
                    }
                }
            }
        }
    }
    let burst = get_scenario(ScenarioName::PoolPayout, 50).phases[1].work;
    assert!(matches!(burst, Work::Load { pattern: LoadPattern::Burst { count: 50 }, amount: 50_000_000, batch_size: 50 }));
}

#[test]
fn inbound_transactions_are_detected_once() {
    let tx = |id: &str| TransactionStatus { tx_id: id.to_string(), status: "s".to_string(), mined_height: None, confirmations: None };
    let mut c = MetricsCollector::new();
    let mut w = InboundWatch::new(1, 100);
    let at = Timestamp { secs: 5, nanos: 0 };
    assert_eq!(w.observe(&mut c, "w", "inbound_flood_detect", &vec![tx("a")], at, 10), 0);
    assert_eq!(w.observe(&mut c, "w", "inbound_flood_detect", &vec![tx("a"), tx("b"), tx("c")], at, 20), 2);
    assert_eq!(w.observe(&mut c, "w", "inbound_flood_detect", &vec![tx("a")], at, 25), 0);
    assert_eq!(w.observe(&mut c, "w", "inbound_flood_detect", &vec![tx("a"), tx("b"), tx("c"), tx("d")], at, 30), 1);
    assert_eq!(w.detected_count, 3);
    let txs = c.get_transactions();
    assert_eq!(txs.iter().map(|t| t.tx_id.as_str()).collect::<Vec<_>>(), vec!["b", "c", "d"]);
    assert_eq!((txs[2].duration_ms, txs[2].amount, txs[2].accepted, txs[2].fee), (30, 0, true, None));
    assert_eq!((txs[0].tx_type.as_str(), txs[0].start_time, txs[0].end_time), ("inbound_detect", at, at));
    assert!(w.observe_balance(99));
    assert!(!w.observe_balance(99));
    assert!(InboundWatch::goes_on(599 * SEC, 600));
    assert!(!InboundWatch::goes_on(600 * SEC, 600));
}

#[test]
fn budgets_are_checked() {
    assert!(check_budget(balance(10, 0, 0), 10));
    assert!(!check_budget(balance(9, 9, 0), 10));
}

#[test]
fn usable_utxos_are_counted() {
    let u = |value| UtxoInfo { value, status: "unspent".to_string() };
    assert_eq!(count_usable_utxos(&vec![u(5), u(10), u(11), u(9)], 10), 2);
    assert_eq!(count_usable_utxos(&vec![], 0), 0);
}

#[test]
fn no_utxos_required_needs_no_preparation() {
    assert!(UtxoGuard::ensure_utxos(0, 5).is_none());
    assert!(UtxoGuard::ensure_utxos(0, u64::MAX).is_none());
}

#[test]
fn the_cost_of_a_split_is_computed_only_for_what_is_missing() {
    let funding = |required: u64, split_amount: u64, have: u64| {
        let mut g = UtxoGuard::ensure_utxos(required, split_amount).unwrap();
        assert!(g.can_step());
        g.step(UtxoEvent::Balance { balance: balance(1, 0, 0) }, 0);
        assert!(g.can_step());
        g.step(UtxoEvent::Counted { have }, 1);
        g.can_step()
    };
    assert!(funding(700, 55_000_000, 0));
    assert!(!funding(1, u64::MAX, 0));
    assert!(!funding(u64::MAX, 1, 0));
    assert!(funding(u64::MAX, 1, u64::MAX - 1));
    assert!(funding(1, u64::MAX, 1));
}

#[test]
fn enough_utxos_are_ready_at_once() {
    let mut g = UtxoGuard::ensure_utxos(3, 100).unwrap();
    assert_eq!(g.step(UtxoEvent::Balance { balance: balance(1, 0, 0) }, 0), UtxoAction::SyncAndCount);
    assert_eq!(g.step(UtxoEvent::Counted { have: 3 }, 1), UtxoAction::Ready { have: 3 });
}

#[test]
fn missing_utxos_are_split_once_funded() {
    let mut g = UtxoGuard::ensure_utxos(3, 100).unwrap();
    let poor = UtxoEvent::Balance { balance: balance(10_199, 5, 0) };
    assert_eq!(g.step(poor, 0), UtxoAction::AwaitPending { max_wait_secs: 600 });
    assert_eq!(g.step(UtxoEvent::PendingCleared, 50 * SEC), UtxoAction::SyncAndCount);
    assert_eq!(g.step(UtxoEvent::Counted { have: 1 }, 100 * SEC), UtxoAction::GetBalance);
    assert_eq!(g.step(poor, 1000 * SEC), UtxoAction::PauseAndCount { secs: 30 });
    assert_eq!(g.step(UtxoEvent::Counted { have: 1 }, 1000 * SEC), UtxoAction::GetBalance);
    let rich = UtxoEvent::Balance { balance: balance(10_200, 0, 0) };
    assert_eq!(
        g.step(rich, 2000 * SEC),
        UtxoAction::Split { amount_per_utxo: 100, target_count: 2, max_per_round: 200 }
    );
    assert_eq!(g.step(UtxoEvent::SplitDone, 2001 * SEC), UtxoAction::Count);
    assert_eq!(g.step(UtxoEvent::Counted { have: 2 }, 2002 * SEC), UtxoAction::Short { have: 2 });
}

#[test]
fn utxos_that_appear_in_a_pause_are_enough() {
    let mut g = UtxoGuard::ensure_utxos(2, 100).unwrap();
    g.step(UtxoEvent::Balance { balance: balance(0, 0, 0) }, 0);
    g.step(UtxoEvent::Counted { have: 0 }, 0);
    g.step(UtxoEvent::Balance { balance: balance(0, 0, 0) }, SEC);
    assert_eq!(g.step(UtxoEvent::Counted { have: 5 }, 2 * SEC), UtxoAction::Ready { have: 5 });
}

#[test]
fn funds_and_settling_time_out() {
    let begin = || {
        let mut g = UtxoGuard::ensure_utxos(2, 100).unwrap();
        g.step(UtxoEvent::Balance { balance: balance(0, 0, 0) }, 0);
        g.step(UtxoEvent::Counted { have: 0 }, 10 * SEC);
        g
    };
    let mut g = begin();
    let poor = UtxoEvent::Balance { balance: balance(0, 0, 0) };
    assert_eq!(g.step(poor, 910 * SEC + 1), UtxoAction::FundsTimedOut { required_balance: 10_200 });
    let rich = UtxoEvent::Balance { balance: balance(1_000_000, 0, 0) };
    let mut g = begin();
    g.step(rich, 20 * SEC);
    assert_eq!(g.step(UtxoEvent::SplitFailed { unsettled: true }, 910 * SEC), UtxoAction::PauseAndCount { secs: 30 });
    let mut g = begin();
    g.step(rich, 20 * SEC);
    assert_eq!(g.step(UtxoEvent::SplitFailed { unsettled: true }, 911 * SEC), UtxoAction::SettleTimedOut);
    let mut g = begin();
    g.step(rich, 20 * SEC);
    assert_eq!(g.step(UtxoEvent::SplitFailed { unsettled: false }, 21 * SEC), UtxoAction::SplitFailed);
}

#[test]
fn unsettled_funds_are_told_by_the_message() {
    assert!(funds_unsettled("Split round 1 rejected: Some(\"FundsPending\")"));
    assert!(funds_unsettled("not enough funds"));
    assert!(!funds_unsettled("Split round 1 failed"));
    assert!(!funds_unsettled("Funds pending"));
    assert_eq!(
        funds_timeout_error("old_wallet", 7_500_000, balance(2_999_999, 1_000_000, 4_000_000)),
        "[old_wallet] Timed out waiting for sufficient available balance. Need 7 tXTM, have 2 tXTM available (4 tXTM pending out, 1 tXTM pending in)"
    );
}

#[test]
fn warm_ups_are_recorded_with_a_known_fee_only() {
    let mut c = MetricsCollector::new();
    let mut r = SendResult { tx_id: "1".to_string(), accepted: true, error: None, fee: None };
    record_warmup(&mut c, "new_wallet", &r, timing());
    assert!(c.get_transactions().is_empty());
    r.fee = Some(9);
    record_warmup(&mut c, "new_wallet", &r, timing());
    let t = &c.get_transactions()[0];
    assert_eq!((t.scenario.as_str(), t.tx_type.as_str(), t.amount, t.fee), ("baseline", "warmup", 1_000_000, Some(9)));
}

#[test]
fn the_seed_comes_from_where_there_is_one() {
    assert!(matches!(seed_source(true, &Some(state("bad"))), Ok(SeedSource::Existing)));
    assert!(matches!(seed_source(false, &None), Ok(SeedSource::Random)));
    assert!(matches!(seed_source(false, &Some(state(""))), Ok(SeedSource::Random)));
    let e = seed_source(false, &Some(state("bad words"))).unwrap_err();
    assert!(e.starts_with("Failed to restore seed: "));
}

#[test]
fn a_setup_is_found_again() {
    let config = SetupConfig::default();
    let s = setup_state(&config, "data/new_wallet.sqlite", &words(), "old address", "new address");
    assert_eq!(s.old_wallet_grpc, "http://127.0.0.1:18143");
    assert_eq!(s.old_wallet_binary, "minotari_console_wallet");
    assert_eq!(s.new_wallet_db, "data/new_wallet.sqlite");
    assert_eq!(s.new_wallet_seed_words, "one two");
    assert_eq!(s.base_node_url, "https://rpc.esmeralda.tari.com");
    assert_eq!((s.network.as_str(), s.old_wallet_address.as_str(), s.new_wallet_address.as_str()), ("esmeralda", "old address", "new address"));
    let setup = Some(s);
    assert_eq!(WalletConfig::default().seed_words(&setup), words());
    assert_eq!(WalletConfig::default().resolved_base_node_url(&setup), "https://rpc.esmeralda.tari.com");
    let config = SetupConfig { base_node_url: Some("http://n".to_string()), ..SetupConfig::default() };
    assert_eq!(setup_state(&config, "", &vec![], "", "").base_node_url, "http://n");
}

#[test]
fn both_wallets_must_be_funded() {
    let wait = FundingStep::Wait { secs: 30 };
    assert_eq!(funding_step(Some(2_000_000), Some(2_000_000), 2), FundingStep::Funded);
    assert_eq!(funding_step(Some(1_999_999), Some(2_000_000), 2), wait);
    assert_eq!(funding_step(Some(2_000_000), None, 2), wait);
    assert_eq!(funding_step(None, Some(2_000_000), 2), wait);
}

#[test]
fn drivers_need_a_network_seed_words_and_a_database() {
    let setup = Some(state("one two"));
    let mut config = WalletConfig::default();
    let d = create_drivers(&config, &setup, WalletDb::Present).unwrap();
    assert_eq!((d.network, d.seed_words, d.base_node_url.as_str()), (Network::Esmeralda, words(), "https://rpc.esmeralda.tari.com"));
    assert!(create_drivers(&config, &setup, WalletDb::Recreated).is_ok());
    assert_eq!(
        create_drivers(&config, &setup, WalletDb::Missing).unwrap_err(),
        "Wallet database not found at data/new_wallet.sqlite. Run `setup` first or pass --new-wallet-db."
    );
    assert_eq!(
        create_drivers(&config, &None, WalletDb::Missing).unwrap_err(),
        "No seed words provided. Either pass --new-wallet-seed-words, set TARI_SEED_WORDS env var, or run `setup` first."
    );
    config.network = "x".to_string();
    assert!(create_drivers(&config, &None, WalletDb::Missing).unwrap_err().starts_with("Invalid network 'x': "));
}

#[test]
fn address_pools_are_generated_for_known_networks() {
    let (mut pool, entries) = init_address_pool("Esmeralda", 2).ok().unwrap();
    assert_eq!((pool.len(), entries.len()), (2, 2));
    assert_eq!(pool.next_address(), entries[0].address_base58);
    assert!(init_address_pool("x", 2).err().unwrap().starts_with("Invalid network 'x': "));
    assert_eq!(missing_pool_error("p.json"), "Address pool file not found at p.json. Run setup first.");
    assert_eq!(drain_network("igor"), Ok(Network::Igor));
    assert!(drain_network("x").unwrap_err().starts_with("Invalid network: Invalid value `x`"));
}

#[test]
fn run_all_runs_one_wallet_after_the_other() {
    let steps = plan_command(&Command::RunAll { wallet_config: WalletConfig::default() });
    assert_eq!(steps.len(), 1 + 19 + 19 + 2);
    assert_eq!(steps[0], Step::OpenPool);
    assert_eq!(steps[1], Step::StartFresh { wallet: WalletKind::Old });
    assert_eq!(steps[2], Step::StartMonitor { wallet: WalletKind::Old });
    assert_eq!(steps[3], Step::CheckIn { wallet: WalletKind::Old });
    assert_eq!(steps[4], Step::WarmUp { wallet: WalletKind::Old });
    assert_eq!(steps[5], Step::RunScenario { wallet: WalletKind::Old, scenario: ScenarioName::PoolPayout, batch_size: 1 });
    assert_eq!(steps[6], Step::Checkpoint { wallet: WalletKind::Old });
    assert_eq!(steps[13], Step::RunScenario { wallet: WalletKind::Old, scenario: ScenarioName::LockContention, batch_size: 1 });
    assert_eq!(steps[15], Step::FinalCheck { wallet: WalletKind::Old });
    assert_eq!(steps[17], Step::WriteReports { dir: ReportDir::OldWallet });
    assert_eq!(steps[19], Step::Stop { wallet: WalletKind::Old });
    assert_eq!(steps[20], Step::StartFresh { wallet: WalletKind::New });
    assert_eq!(steps[36], Step::WriteReports { dir: ReportDir::NewWallet });
    assert_eq!(steps[39], Step::WriteReports { dir: ReportDir::Root });
    assert_eq!(steps[40], Step::PrintComparison);
}

#[test]
fn single_wallet_runs_concern_that_wallet_only() {
    let config = WalletConfig::default;
    let old = plan_command(&Command::RunOld { wallet_config: config() });
    assert!(old.contains(&Step::NoteBalance { wallet: WalletKind::Old }));
    assert!(!old.contains(&Step::StartFresh { wallet: WalletKind::New }));
    let new = plan_command(&Command::RunNew { wallet_config: config() });
    assert!(!new.contains(&Step::StartFresh { wallet: WalletKind::Old }));
    assert!(new.contains(&Step::WriteReports { dir: ReportDir::Root }));
    let pool = plan_command(&Command::RunPool { wallet_config: config() });
    assert!(pool.contains(&Step::RunScenario { wallet: WalletKind::New, scenario: ScenarioName::PoolPayout, batch_size: 50 }));
    assert!(pool.contains(&Step::WriteReports { dir: ReportDir::Pool }));
    for steps in [old, new, pool] {
        for (i, step) in steps.iter().enumerate() {
            if let Step::RunScenario { wallet, .. } = step {
                assert_eq!(steps[i + 1], Step::Checkpoint { wallet: *wallet });
            }
        }
    }
}

#[test]
fn the_other_commands_have_their_steps() {
    let config = WalletConfig::default;
    let old = WalletKind::Old;
    let new = WalletKind::New;
    assert_eq!(plan_command(&Command::Setup { setup_config: SetupConfig::default() }), vec![Step::Setup]);
    assert_eq!(plan_command(&Command::Drain { wallet_config: config(), drain_limit: 3 }), vec![Step::Drain]);
    assert_eq!(
        plan_command(&Command::Sync { wallet_config: config() }),
        vec![Step::Open { wallet: new }, Step::SyncAndPrint { wallet: new }, Step::Stop { wallet: new }]
    );
    assert_eq!(
        plan_command(&Command::Baseline { wallet_config: config() }),
        vec![
            Step::OpenPool,
            Step::StartFresh { wallet: old },
            Step::StartFresh { wallet: new },
            Step::CheckIn { wallet: old },
            Step::CheckIn { wallet: new },
            Step::WarmUp { wallet: old },
            Step::WarmUp { wallet: new },
            Step::Stop { wallet: old },
            Step::Stop { wallet: new },
        ]
    );
    assert_eq!(plan_command(&Command::Consolidate { wallet_config: config() })[2], Step::Consolidate { wallet: old });
    let run = plan_command(&Command::Run { scenario: ScenarioName::Fragmentation, wallet_config: config() });
    assert_eq!(run[2], Step::RunScenario { wallet: old, scenario: ScenarioName::Fragmentation, batch_size: 1 });
    assert_eq!(run[5], Step::RunScenario { wallet: new, scenario: ScenarioName::Fragmentation, batch_size: 1 });
    assert_eq!(ReportDir::Pool.subdir(), Some("pool"));
    assert_eq!(ReportDir::OldWallet.subdir(), Some("old_wallet"));
    assert_eq!(ReportDir::NewWallet.subdir(), Some("new_wallet"));
    assert_eq!(ReportDir::Root.subdir(), None);
}

#[test]
fn restored_seeds_must_decode() {
    assert!(matches!(settle_restored("p q", Ok(5)), Ok(SeedSource::Restored { phrase }) if phrase == "p q"));
    assert_eq!(settle_restored("p q", Err("bad".to_string())).unwrap_err(), "bad");
}

#[test]
fn drivers_are_settled_by_the_network() {
    let setup = Some(state("one two"));
    let config = WalletConfig::default();
    let d = settle_drivers(&config, &setup, WalletDb::Present, Ok(Network::Igor)).unwrap();
    assert_eq!(d.network, Network::Igor);
    assert_eq!(settle_drivers(&config, &setup, WalletDb::Present, Err("n".to_string())).unwrap_err(), "n");
}

#[test]
fn a_stored_address_pool_decides_alone() {
    let (mut pool, written) = open_address_pool(None, "esmeralda", 2).ok().unwrap();
    let stored = written.unwrap();
    assert_eq!((pool.len(), stored.len()), (2, 2));
    let addresses: Vec<String> = stored.iter().map(|e| e.address_base58.clone()).collect();
    assert_eq!(vec![pool.next_address(), pool.next_address()], addresses);
    for (network, size) in [("esmeralda", 2), ("igor", 9), ("x", 0)] {
        let (mut again, written) = open_address_pool(Some(stored.clone()), network, size).ok().unwrap();
        assert!(written.is_none());
        assert_eq!(again.len(), 2);
        assert_eq!(vec![again.next_address(), again.next_address()], addresses);
    }
    assert!(open_address_pool(None, "x", 2).err().unwrap().starts_with("Invalid network 'x': "));
}

#[test]
fn warm_ups_go_to_the_next_addresses_of_the_pool() {
    let (mut pool, entries) = init_address_pool("igor", 2).ok().unwrap();
    for i in [0, 1, 0] {
        let r = warmup_recipient(&mut pool);
        assert_eq!((r.address, r.amount), (entries[i].address_base58.clone(), 1_000_000));
    }
    assert_eq!(check_context(WalletKind::Old, WalletCheck::Balance), "Old wallet balance check");
    assert_eq!(check_context(WalletKind::New, WalletCheck::Balance), "New wallet balance check");
    assert_eq!(check_context(WalletKind::Old, WalletCheck::Address), "Old wallet address");
    assert_eq!(check_context(WalletKind::New, WalletCheck::Address), "New wallet address");
}
