//! Command line options, persisted setup state, and what they resolve to.
use vstd::prelude::*;
use vstd::string::*;

use crate::text::{
    is_word, joined, law_words_of_joined, lowercased, opt_view, split_words, str_eq, texts,
    to_lowercase, words,
};

verus! {

/// The default base node RPC URL for a network name in lowercase.
pub open spec fn node_url(network: Seq<char>) -> Seq<char> {
    if network == "esmeralda"@ {
        "https://rpc.esmeralda.tari.com"@
    } else if network == "nextnet"@ {
        "https://rpc.nextnet.tari.com"@
    } else {
        "https://rpc.tari.com"@
    }
}

/// The default base node RPC URL for a network name in lowercase.
pub fn base_node_url_of(lower: &str) -> (r: String)
    ensures
        r@ == node_url(lower@),
{
    if str_eq(lower, "esmeralda") {
        "https://rpc.esmeralda.tari.com".to_owned()
    } else if str_eq(lower, "nextnet") {
        "https://rpc.nextnet.tari.com".to_owned()
    } else {
        "https://rpc.tari.com".to_owned()
    }
}

/// Returns the default base node RPC URL for a given network name.
pub fn default_base_node_url(network: &str) -> (r: String)
    ensures
        r@ == node_url(lowercased(network@)),
{
    base_node_url_of(to_lowercase(network).as_str())
}

/// What the program was asked to do.
#[derive(Clone, Debug)]
pub struct Cli {
    pub command: Command,
    /// Output directory for metrics CSV files
    pub output_dir: String,
    /// Log level (error, warn, info, debug, trace)
    pub log_level: String,
}

#[derive(Clone, Debug)]
pub enum Command {
    /// Create wallets, display addresses, and wait for funding before running tests
    Setup { setup_config: SetupConfig },
    /// Run all scenarios sequentially on both wallets
    RunAll { wallet_config: WalletConfig },
    /// Run all scenarios on old wallet only (minotari_console_wallet via gRPC)
    RunOld { wallet_config: WalletConfig },
    /// Run all scenarios on new wallet only (minotari-cli)
    RunNew { wallet_config: WalletConfig },
    /// Run a specific scenario on both wallets
    Run { scenario: ScenarioName, wallet_config: WalletConfig },
    /// Run baseline measurements only
    Baseline { wallet_config: WalletConfig },
    /// Consolidate all UTXOs back to single UTXO per wallet
    Consolidate { wallet_config: WalletConfig },
    /// Run pool/payment-processor scenarios on new wallet (batch 1-to-many transactions)
    RunPool { wallet_config: WalletConfig },
    /// Sync the new wallet to chain tip and print balance
    Sync { wallet_config: WalletConfig },
    /// Drain funds from address pool sink wallets back to the new wallet
    Drain {
        wallet_config: WalletConfig,
        /// Maximum number of pool accounts to scan/drain (0 = all).
        drain_limit: usize,
    },
}

/// Configuration for the setup command (creates wallets automatically).
#[derive(Clone, Debug)]
pub struct SetupConfig {
    /// Path to the minotari_console_wallet binary
    pub old_wallet_binary: String,
    /// Base directory for old wallet data
    pub old_wallet_base_dir: String,
    /// gRPC port for managed old wallet process
    pub old_wallet_grpc_port: u16,
    /// Base node HTTP RPC URL for broadcasting transactions (new wallet).
    /// Defaults to the public RPC for the selected network.
    pub base_node_url: Option<String>,
    /// Network (mainnet, nextnet, esmeralda, localnet)
    pub network: String,
    /// Directory for wallet data (created automatically)
    pub data_dir: String,
    /// Minimum balance (in tXTM) required before proceeding
    pub min_balance_txm: u64,
    /// Number of addresses to generate in the address pool
    pub address_pool_size: usize,
}

#[derive(Clone, Copy, Debug, PartialEq, Eq, Structural)]
pub enum ScenarioName {
    PoolPayout,
    InboundFlood,
    Bidirectional,
    Fragmentation,
    LockContention,
}

/// Persisted setup state written by the `setup` command.
#[derive(Clone, Debug)]
pub struct SetupState {
    pub old_wallet_grpc: String,
    pub old_wallet_binary: String,
    pub new_wallet_db: String,
    pub new_wallet_seed_words: String,
    pub base_node_url: String,
    pub network: String,
    pub old_wallet_address: String,
    pub new_wallet_address: String,
}

impl SetupState {
    /// Where the state is kept.
    pub fn path() -> (r: &'static str)
        ensures
            r@ == "data/setup.json"@,
    {
        "data/setup.json"
    }
}

#[derive(Clone, Debug)]
pub struct WalletConfig {
    /// Old wallet gRPC address (uses single-call Transfer RPC)
    pub old_wallet_grpc: String,
    /// Path to the minotari_console_wallet binary (for process management)
    pub old_wallet_binary: String,
    /// Base directory for old wallet data (deleted and recreated for fresh scans)
    pub old_wallet_base_dir: String,
    /// gRPC port for managed old wallet process
    pub old_wallet_grpc_port: u16,
    /// Fee per gram in MicroMinotari (old wallet)
    pub fee_per_gram: u64,
    /// Path to the minotari-cli wallet SQLite database
    pub new_wallet_db: String,
    /// Account name in the minotari-cli wallet
    pub new_wallet_account: String,
    /// Password for the minotari-cli wallet account
    pub new_wallet_password: String,
    /// Seed words for the new wallet (space-separated mnemonic). Taken from the setup state if not provided.
    pub new_wallet_seed_words: Option<String>,
    /// Base node HTTP RPC URL for broadcasting transactions (new wallet).
    /// Defaults to the public RPC for the selected network.
    pub base_node_url: Option<String>,
    /// Network (mainnet, nextnet, esmeralda, localnet)
    pub network: String,
    /// Block time in seconds
    pub block_time_secs: u64,
    /// Number of confirmations to wait for
    pub confirmations: u64,
    /// Number of addresses to generate in the address pool
    pub address_pool_size: usize,
    /// Path to the address pool JSON file (loaded if exists, generated otherwise)
    pub address_pool_file: String,
}

impl Default for SetupConfig {
    fn default() -> (r: Self)
        ensures
            r.old_wallet_binary@ == "minotari_console_wallet"@,
            r.old_wallet_base_dir@ == "data/old_wallet"@,
            r.old_wallet_grpc_port == 18143,
            r.base_node_url is None,
            r.network@ == "esmeralda"@,
            r.data_dir@ == "data"@,
            r.min_balance_txm == 100_000,
            r.address_pool_size == 1000,
    {
        SetupConfig {
            old_wallet_binary: "minotari_console_wallet".to_owned(),
            old_wallet_base_dir: "data/old_wallet".to_owned(),
            old_wallet_grpc_port: 18143,
            base_node_url: None,
            network: "esmeralda".to_owned(),
            data_dir: "data".to_owned(),
            min_balance_txm: 100_000,
            address_pool_size: 1000,
        }
    }
}

impl Default for WalletConfig {
    fn default() -> (r: Self)
        ensures
            r.old_wallet_grpc@ == "http://127.0.0.1:18143"@,
            r.old_wallet_binary@ == "minotari_console_wallet"@,
            r.old_wallet_base_dir@ == "data/old_wallet"@,
            r.old_wallet_grpc_port == 18143,
            r.fee_per_gram == 5,
            r.new_wallet_db@ == "data/new_wallet.sqlite"@,
            r.new_wallet_account@ == "default"@,
            r.new_wallet_password@ == ""@,
            r.new_wallet_seed_words is None,
            r.base_node_url is None,
            r.network@ == "esmeralda"@,
            r.block_time_secs == 120,
            r.confirmations == 3,
            r.address_pool_size == 1000,
            r.address_pool_file@ == "data/address_pool.json"@,
    {
        WalletConfig {
            old_wallet_grpc: "http://127.0.0.1:18143".to_owned(),
            old_wallet_binary: "minotari_console_wallet".to_owned(),
            old_wallet_base_dir: "data/old_wallet".to_owned(),
            old_wallet_grpc_port: 18143,
            fee_per_gram: 5,
            new_wallet_db: "data/new_wallet.sqlite".to_owned(),
            new_wallet_account: "default".to_owned(),
            new_wallet_password: "".to_owned(),
            new_wallet_seed_words: None,
            base_node_url: None,
            network: "esmeralda".to_owned(),
            block_time_secs: 120,
            confirmations: 3,
            address_pool_size: 1000,
            address_pool_file: "data/address_pool.json".to_owned(),
        }
    }
}

/// The base node URL: explicit flag > setup state > network default.
pub open spec fn resolved_url(
    flag: Option<Seq<char>>,
    setup: Option<SetupState>,
    network: Seq<char>,
) -> Seq<char> {
    match (flag, setup) {
        (Some(url), _) => url,
        (None, Some(state)) => state.base_node_url@,
        (None, None) => node_url(lowercased(network)),
    }
}

/// The seed words: explicit flag > setup state > none.
pub open spec fn resolved_seed_words(
    flag: Option<Seq<char>>,
    setup: Option<SetupState>,
) -> Seq<Seq<char>> {
    match (flag, setup) {
        (Some(phrase), _) => words(phrase),
        (None, Some(state)) => words(state.new_wallet_seed_words@),
        (None, None) => Seq::empty(),
    }
}

impl WalletConfig {
    /// Resolved base node URL: explicit flag > setup state > network default.
    pub fn resolved_base_node_url(&self, setup: &Option<SetupState>) -> (r: String)
        ensures
            r@ == resolved_url(opt_view(self.base_node_url), *setup, self.network@),
    {
        match &self.base_node_url {
            Some(url) => url.clone(),
            None => match setup {
                Some(state) => state.base_node_url.clone(),
                None => default_base_node_url(self.network.as_str()),
            },
        }
    }

    /// Confirmation wait time = block_time * confirmations
    pub fn confirmation_wait_secs(&self) -> (r: u64)
        requires
            self.block_time_secs * self.confirmations <= u64::MAX,
        ensures
            r == self.block_time_secs * self.confirmations,
    {
        self.block_time_secs * self.confirmations
    }

    /// Get seed words, falling back to the setup state if not provided via CLI/env.
    pub fn seed_words(&self, setup: &Option<SetupState>) -> (r: Vec<String>)
        ensures
            texts(r@) == resolved_seed_words(opt_view(self.new_wallet_seed_words), *setup),
    {
        match &self.new_wallet_seed_words {
            Some(phrase) => split_words(phrase.as_str()),
            None => match setup {
                Some(state) => split_words(state.new_wallet_seed_words.as_str()),
                None => {
                    let none: Vec<String> = Vec::new();
                    assert(texts(none@) =~= Seq::empty());
                    none
                },
            },
        }
    }
}

/// After a setup no flags are needed: without them, the node is the one that
/// the state holds, and the seed words are those that went into it, joined
/// with single spaces.
pub proof fn law_setup_is_enough(list: Seq<Seq<char>>, state: SetupState, network: Seq<char>)
    requires
        forall|i: int| 0 <= i < list.len() ==> is_word(#[trigger] list[i]),
        state.new_wallet_seed_words@ == joined(list, seq![' ']),
    ensures
        resolved_seed_words(None, Some(state)) == list,
        resolved_url(None, Some(state), network) == state.base_node_url@,
{
    law_words_of_joined(list);
}

/// A flag overrides whatever the setup state holds.
pub proof fn law_flag_overrides_setup(
    url: Seq<char>,
    phrase: Seq<char>,
    one: Option<SetupState>,
    other: Option<SetupState>,
    network: Seq<char>,
)
    ensures
        resolved_url(Some(url), one, network) == resolved_url(Some(url), other, network),
        resolved_seed_words(Some(phrase), one) == resolved_seed_words(Some(phrase), other),
{
}

/// The base node is the one that the flag names; without the flag the one that
/// the setup left; without either the public one of the network: there is one
/// for Esmeralda, one for NextNet and one for all others.
pub proof fn law_node_is_looked_up_in_order(
    config: WalletConfig,
    setup: Option<SetupState>,
    r: String,
)
    requires
        call_ensures(WalletConfig::resolved_base_node_url, (&config, &setup), r),
    ensures
        config.base_node_url matches Some(url) ==> r@ == url@,
        config.base_node_url is None && setup is Some ==> r@ == setup->Some_0.base_node_url@,
        config.base_node_url is None && setup is None ==> r@ == if lowercased(config.network@)
            == "esmeralda"@ {
            "https://rpc.esmeralda.tari.com"@
        } else if lowercased(config.network@) == "nextnet"@ {
            "https://rpc.nextnet.tari.com"@
        } else {
            "https://rpc.tari.com"@
        },
{
}

/// The public base node of a network does not depend on the letter case of its
/// name.
pub proof fn law_node_of_a_name_in_any_case(network: &str, lower: &str, r: String, of_lower: String)
    requires
        call_ensures(default_base_node_url, (network,), r),
        call_ensures(base_node_url_of, (lower,), of_lower),
        lower@ == lowercased(network@),
    ensures
        r@ == of_lower@,
        lower@ == "esmeralda"@ ==> r@ == "https://rpc.esmeralda.tari.com"@,
        lower@ == "nextnet"@ ==> r@ == "https://rpc.nextnet.tari.com"@,
        lower@ != "esmeralda"@ && lower@ != "nextnet"@ ==> r@ == "https://rpc.tari.com"@,
{
    reveal_strlit("esmeralda");
    reveal_strlit("nextnet");
    assert("esmeralda"@.len() != "nextnet"@.len());
}

/// The seed words are those of the flag; without the flag those that the setup
/// left; without either there are none.
pub proof fn law_seed_words_are_looked_up_in_order(
    config: WalletConfig,
    setup: Option<SetupState>,
    r: Vec<String>,
    phrase: &str,
    split: Vec<String>,
)
    requires
        call_ensures(WalletConfig::seed_words, (&config, &setup), r),
        call_ensures(split_words, (phrase,), split),
    ensures
        config.new_wallet_seed_words is Some && config.new_wallet_seed_words->Some_0@ == phrase@
            ==> texts(r@) == texts(split@),
        config.new_wallet_seed_words is None && setup is Some
            && setup->Some_0.new_wallet_seed_words@ == phrase@ ==> texts(r@) == texts(split@),
        config.new_wallet_seed_words is None && setup is None ==> r.len() == 0,
{
    assert(texts(r@).len() == r.len());
}

/// The wait for confirmations is so many blocks long; without flags that is
/// three blocks of two minutes.
pub proof fn law_wait_is_so_many_blocks(
    config: WalletConfig,
    r: u64,
    plain: WalletConfig,
    usual: u64,
)
    requires
        call_ensures(WalletConfig::confirmation_wait_secs, (&config,), r),
        call_ensures(WalletConfig::default, (), plain),
        call_ensures(WalletConfig::confirmation_wait_secs, (&plain,), usual),
    ensures
        config.confirmations == 0 ==> r == 0,
        config.confirmations > 0 ==> r as int % config.confirmations as int == 0 && r as int
            / config.confirmations as int == config.block_time_secs,
        usual == 3 * 120,
{
    if config.confirmations == 0 {
        assert(config.block_time_secs * config.confirmations == 0) by (nonlinear_arith)
            requires
                config.confirmations == 0,
        ;
    } else {
        vstd::arithmetic::div_mod::lemma_fundamental_div_mod_converse(
            r as int,
            config.confirmations as int,
            config.block_time_secs as int,
            0,
        );
    }
}

/// What the commands go by without any flags.
pub proof fn law_defaults(wallet: WalletConfig, setup: SetupConfig)
    requires
        call_ensures(WalletConfig::default, (), wallet),
        call_ensures(SetupConfig::default, (), setup),
    ensures
        wallet.old_wallet_grpc@ == "http://127.0.0.1:18143"@,
        wallet.old_wallet_binary@ == "minotari_console_wallet"@,
        wallet.old_wallet_base_dir@ == "data/old_wallet"@,
        wallet.old_wallet_grpc_port == 18143,
        wallet.fee_per_gram == 5,
        wallet.new_wallet_db@ == "data/new_wallet.sqlite"@,
        wallet.new_wallet_account@ == "default"@,
        wallet.new_wallet_password@ == ""@,
        wallet.network@ == "esmeralda"@,
        wallet.block_time_secs == 120,
        wallet.confirmations == 3,
        wallet.address_pool_size == 1000,
        wallet.address_pool_file@ == "data/address_pool.json"@,
        setup.old_wallet_binary@ == wallet.old_wallet_binary@,
        setup.old_wallet_base_dir@ == wallet.old_wallet_base_dir@,
        setup.old_wallet_grpc_port == wallet.old_wallet_grpc_port,
        setup.network@ == wallet.network@,
        setup.address_pool_size == wallet.address_pool_size,
        setup.data_dir@ == "data"@,
        setup.min_balance_txm == 100_000,
{
}

/// The setup is kept where the other commands look for it.
pub proof fn law_setup_is_kept_in_the_data_directory(r: &'static str, setup: SetupConfig)
    requires
        call_ensures(SetupState::path, (), r),
        call_ensures(SetupConfig::default, (), setup),
    ensures
        r@ == setup.data_dir@ + "/setup.json"@,
{
    reveal_strlit("data");
    reveal_strlit("/setup.json");
    reveal_strlit("data/setup.json");
    assert("data/setup.json"@ =~= "data"@ + "/setup.json"@);
}

} // verus!
