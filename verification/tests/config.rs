use wallet_performance::config::{base_node_url_of, default_base_node_url, SetupConfig, SetupState, WalletConfig};

fn state(url: &str, words: &str) -> SetupState {
    SetupState {
        old_wallet_grpc: "http://127.0.0.1:18143".to_string(),
        old_wallet_binary: "minotari_console_wallet".to_string(),
        new_wallet_db: "data/new_wallet.sqlite".to_string(),
        new_wallet_seed_words: words.to_string(),
        base_node_url: url.to_string(),
        network: "esmeralda".to_string(),
        old_wallet_address: "a".to_string(),
        new_wallet_address: "b".to_string(),
    }
}

#[test]
fn default_urls_go_by_the_network() {
    assert_eq!(default_base_node_url("esmeralda"), "https://rpc.esmeralda.tari.com");
    assert_eq!(default_base_node_url("ESMERALDA"), "https://rpc.esmeralda.tari.com");
    assert_eq!(default_base_node_url("NextNet"), "https://rpc.nextnet.tari.com");
    assert_eq!(default_base_node_url("mainnet"), "https://rpc.tari.com");
    assert_eq!(default_base_node_url("localnet"), "https://rpc.tari.com");
    assert_eq!(default_base_node_url(""), "https://rpc.tari.com");
}

#[test]
fn flag_setup_and_default_come_in_this_order() {
    let mut config = WalletConfig::default();
    assert_eq!(config.resolved_base_node_url(&None), "https://rpc.esmeralda.tari.com");
    let setup = Some(state("http://node", "x"));
    assert_eq!(config.resolved_base_node_url(&setup), "http://node");
    config.base_node_url = Some("http://flag".to_string());
    assert_eq!(config.resolved_base_node_url(&setup), "http://flag");
    assert_eq!(config.resolved_base_node_url(&None), "http://flag");
}

#[test]
fn seed_words_come_from_flag_or_setup() {
    let mut config = WalletConfig::default();
    assert!(config.seed_words(&None).is_empty());
    let setup = Some(state("", "one two three"));
    assert_eq!(config.seed_words(&setup), vec!["one", "two", "three"]);
    config.new_wallet_seed_words = Some("  four   five ".to_string());
    assert_eq!(config.seed_words(&setup), vec!["four", "five"]);
}

#[test]
fn confirmations_take_three_blocks_of_two_minutes() {
    assert_eq!(WalletConfig::default().confirmation_wait_secs(), 360);
}

#[test]
fn defaults_are_those_of_the_command_line() {
    let c = SetupConfig::default();
    assert_eq!(c.old_wallet_binary, "minotari_console_wallet");
    assert_eq!(c.old_wallet_base_dir, "data/old_wallet");
    assert_eq!(c.old_wallet_grpc_port, 18143);
    assert_eq!(c.network, "esmeralda");
    assert_eq!(c.data_dir, "data");
    assert_eq!(c.min_balance_txm, 100_000);
    assert_eq!(c.address_pool_size, 1000);
    assert!(c.base_node_url.is_none());
    let w = WalletConfig::default();
    assert_eq!(w.old_wallet_grpc, "http://127.0.0.1:18143");
    assert_eq!(w.fee_per_gram, 5);
    assert_eq!(w.new_wallet_db, "data/new_wallet.sqlite");
    assert_eq!(w.new_wallet_account, "default");
    assert_eq!(w.new_wallet_password, "");
    assert_eq!(w.address_pool_file, "data/address_pool.json");
    assert_eq!((w.block_time_secs, w.confirmations, w.address_pool_size), (120, 3, 1000));
    assert_eq!(SetupState::path(), "data/setup.json");
}

#[test]
fn urls_go_by_the_lowercase_name() {
    assert_eq!(base_node_url_of("esmeralda"), "https://rpc.esmeralda.tari.com");
    assert_eq!(base_node_url_of("nextnet"), "https://rpc.nextnet.tari.com");
    assert_eq!(base_node_url_of("Esmeralda"), "https://rpc.tari.com");
}
