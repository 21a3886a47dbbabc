use tari_common_types::seeds::cipher_seed::CipherSeed;
use tari_common_types::seeds::mnemonic::{Mnemonic, MnemonicLanguage};
use tari_common_types::dammsum::compute_checksum;
use tari_common_types::tari_address::{TariAddress, TariAddressFeatures};
use tari_common_types::types::{CompressedPublicKey, PrivateKey};
use tari_crypto::tari_utilities::hex::Hex;
use tari_transaction_components::key_manager::wallet_types::{SeedWordsWallet, WalletType};
use tari_transaction_components::key_manager::{KeyManager, TransactionKeyManagerInterface};
use tari_transaction_components::offline_signing::models::{
    get_latest_version, OneSidedTransactionInfo, PaymentRecipient,
    PrepareOneSidedTransactionForSigningResult,
};
use tari_transaction_components::transaction_components::memo_field::TxType;
use tari_transaction_components::transaction_components::{
    MemoField, OutputFeatures, WalletOutput, WalletOutputBuilder,
};
use tari_transaction_components::MicroMinotari;
use wallet_performance::address_pool::{AddressPool, AddressPoolEntry, Recipient};
use wallet_performance::driver::new_wallet_driver::{begin_batch, begin_send, sign_send, SECONDS_TO_LOCK_UTXO};
use wallet_performance::fund_management::drainer::{Drainer, FoundOutput};
use wallet_performance::signing::{
    derive_key_manager, judge_key_sizes, judge_prepared, sign_prepared, KeySizes, MemoSizes,
};
use wallet_performance::tari::{check_address, derive_seed, in_context, network_or, parse_network, restore_seed, Network};

fn seed_words() -> Vec<String> {
    let words = CipherSeed::random().to_mnemonic(MnemonicLanguage::English, None).unwrap();
    (0..words.len()).map(|i| words.get_word(i).unwrap().clone()).collect()
}

fn prepared(sender: &str) -> PrepareOneSidedTransactionForSigningResult {
    PrepareOneSidedTransactionForSigningResult {
        version: get_latest_version(),
        tx_id: 7u64.into(),
        info: OneSidedTransactionInfo {
            payment_id: MemoField::new_empty(),
            recipients: vec![],
            inputs: vec![],
            outputs: vec![],
            fee: MicroMinotari(5),
            fee_per_gram: MicroMinotari(0),
            sender_address: TariAddress::from_base58(sender).unwrap(),
        },
    }
}

#[test]
fn networks_are_known_by_name_in_any_case() {
    let names = [
        ("mainnet", Network::MainNet), ("NextNet", Network::NextNet), ("STAGENET", Network::StageNet),
        ("localnet", Network::LocalNet), ("igor", Network::Igor), ("esmeralda", Network::Esmeralda),
        ("Esme", Network::Esmeralda),
    ];
    for (name, network) in names {
        assert_eq!(parse_network(name), Ok(network));
        assert_eq!(network_or("x", name), Ok(network));
    }
}

#[test]
fn unknown_networks_are_refused() {
    assert_eq!(
        parse_network("Moon").unwrap_err(),
        "Invalid network 'Moon': Invalid value `Moon` for network: Invalid network option: moon"
    );
    assert_eq!(
        network_or("Invalid network: ", "").unwrap_err(),
        "Invalid network: Invalid value `` for network: Invalid network option: "
    );
}

#[test]
fn pool_addresses_belong_to_their_keys() {
    let (pool, entries) = AddressPool::generate(3, Network::Esmeralda).unwrap();
    assert_eq!(pool.len(), 3);
    for (i, e) in entries.iter().enumerate() {
        assert_eq!(e.index, i);
        assert!(check_address("", &e.address_base58).is_ok());
        let address = TariAddress::from_base58(&e.address_base58).unwrap();
        assert_eq!(address.network(), tari_common::configuration::Network::Esmeralda);
        let view = PrivateKey::from_hex(&e.view_key_hex).unwrap();
        let spend = PrivateKey::from_hex(&e.spend_key_hex).unwrap();
        let view = tari_common_types::types::CompressedPublicKey::from_secret_key(&view);
        let spend = tari_common_types::types::CompressedPublicKey::from_secret_key(&spend);
        assert_eq!(address.public_view_key(), Some(&view));
        assert_eq!(address.public_spend_key(), &spend);
    }
    assert_ne!(entries[0].view_key_hex, entries[1].view_key_hex);
}

#[test]
fn bad_addresses_are_refused_with_their_context() {
    let e = check_address("Invalid recipient address: ", "nonsense").unwrap_err();
    let outside = TariAddress::from_base58("nonsense").unwrap_err().to_string();
    assert_eq!(e, format!("Invalid recipient address: {}", outside));
    let e = Drainer::check_destination("").unwrap_err();
    assert!(e.starts_with("Invalid destination address: "));
}

#[test]
fn seeds_are_decoded_from_their_words() {
    let seed = CipherSeed::random();
    let words = seed.to_mnemonic(MnemonicLanguage::English, None).unwrap();
    let list: Vec<String> = (0..words.len()).map(|i| words.get_word(i).unwrap().clone()).collect();
    assert_eq!(derive_seed(&list), Ok(seed.birthday()));
    assert_eq!(restore_seed("x", &list.join(" ")), Ok(seed.birthday()));
}

#[test]
fn bad_seed_words_are_refused() {
    let e = derive_seed(&vec!["one".to_string(), "zebra9".to_string()]).unwrap_err();
    assert!(e.starts_with("Failed to derive seed: "), "{}", e);
    let e = derive_key_manager(&vec!["one".to_string()]).err().unwrap();
    assert!(e.starts_with("Failed to derive seed: "), "{}", e);
    let e = restore_seed("Failed to restore seed: ", "").unwrap_err();
    assert!(e.starts_with("Failed to restore seed: "), "{}", e);
}

#[test]
fn key_managers_hold_the_keys_of_the_seed() {
    let list = seed_words();
    let manager = derive_key_manager(&list).ok().unwrap();
    let words: tari_common_types::seeds::seed_words::SeedWords = list.join(" ").parse().unwrap();
    let seed = CipherSeed::from_mnemonic(&words, None).unwrap();
    let wallet = SeedWordsWallet::construct_new(seed).unwrap();
    assert_eq!(&manager.get_private_view_key(), wallet.view_key());
    let direct = KeyManager::new(WalletType::SeedWords(wallet)).unwrap();
    assert_eq!(manager.get_spend_key().pub_key, direct.get_spend_key().pub_key);
}

#[test]
fn pool_key_managers_hold_the_keys_of_the_entries() {
    let (_pool, entries) = AddressPool::generate(2, Network::LocalNet).unwrap();
    let managers = Drainer::pool_key_managers(&entries).ok().unwrap();
    assert_eq!(managers.len(), 2);
    for (m, e) in managers.iter().zip(entries.iter()) {
        assert_eq!(m.get_private_view_key().to_hex(), e.view_key_hex);
        let spend = PrivateKey::from_hex(&e.spend_key_hex).unwrap();
        let spend = tari_common_types::types::CompressedPublicKey::from_secret_key(&spend);
        assert_eq!(m.get_spend_key().pub_key, spend);
    }
}

#[test]
fn pool_key_managers_refuse_the_first_bad_key() {
    let (_pool, mut entries) = AddressPool::generate(3, Network::LocalNet).unwrap();
    entries[1].spend_key_hex = "zz".to_string();
    entries[2].view_key_hex = "".to_string();
    assert_eq!(
        Drainer::pool_key_managers(&entries).err().unwrap(),
        "Invalid spend key hex for pool entry 1"
    );
    entries[1].view_key_hex = "12".to_string();
    assert_eq!(
        Drainer::pool_key_managers(&entries).err().unwrap(),
        "Invalid view key hex for pool entry 1"
    );
}

#[test]
fn payment_references_are_those_of_the_block_and_output() {
    let (_pool, entries) = AddressPool::generate(2, Network::Esmeralda).unwrap();
    let found = vec![
        FoundOutput { output_hash: [2u8; 32], value: 40, key_index: 1 },
        FoundOutput { output_hash: [3u8; 32], value: 50, key_index: 0 },
    ];
    let plans = Drainer::plan_block(&entries, &[1u8; 32], &found);
    assert_eq!(plans.len(), 2);
    assert_eq!(plans[0].account_name, "pool_1");
    assert_eq!(plans[0].value, 40);
    assert_eq!(plans[0].output_hash, [2u8; 32]);
    assert_eq!(plans[1].account_name, "pool_0");
    let outside = tari_common_types::payment_reference::generate_payment_reference(
        &[1u8; 32].into(),
        &[2u8; 32].into(),
    );
    assert_eq!(plans[0].payment_reference, outside.to_vec());
    assert_ne!(plans[0].payment_reference, plans[1].payment_reference);
}

#[test]
fn sends_get_keys_of_their_own() {
    let (_pool, entries) = AddressPool::generate(2, Network::Esmeralda).unwrap();
    let a = begin_send(&entries[0].address_base58, 42).unwrap();
    let b = begin_send(&entries[0].address_base58, 42).unwrap();
    assert_ne!(a.idempotency_key, b.idempotency_key);
    let key: Vec<char> = a.idempotency_key.chars().collect();
    assert_eq!(key.len(), 36);
    assert_eq!(key[14], '4');
    for (i, c) in key.iter().enumerate() {
        if [8, 13, 18, 23].contains(&i) {
            assert_eq!(*c, '-');
        } else {
            assert!(c.is_ascii_hexdigit() && !c.is_ascii_uppercase());
        }
    }
    assert_eq!(a.lock_secs, SECONDS_TO_LOCK_UTXO);
    assert_eq!(a.recipients.len(), 1);
    assert_eq!(a.recipients[0].address, entries[0].address_base58);
    assert_eq!(a.recipients[0].amount, 42);
}

#[test]
fn sends_to_bad_addresses_do_not_begin() {
    let (_pool, entries) = AddressPool::generate(1, Network::Esmeralda).unwrap();
    assert!(begin_send("bad", 1).unwrap_err().starts_with("Invalid recipient address: "));
    let recipients = vec![
        Recipient { address: entries[0].address_base58.clone(), amount: 1 },
        Recipient { address: "bad".to_string(), amount: 1 },
    ];
    assert!(begin_batch(recipients).unwrap_err().starts_with("Invalid recipient address: "));
    assert_eq!(begin_batch(vec![]).unwrap().recipients.len(), 0);
    let one = vec![Recipient { address: entries[0].address_base58.clone(), amount: 1 }];
    assert!(begin_batch(one).unwrap().batched);
    assert!(!begin_send(&entries[0].address_base58, 1).unwrap().batched);
}

#[test]
fn signing_without_inputs_fails_with_the_fee_told() {
    let (_pool, entries) = AddressPool::generate(1, Network::LocalNet).unwrap();
    let outcome = sign_send(&seed_words(), Network::LocalNet, prepared(&entries[0].address_base58), 9);
    let result = outcome.unwrap().err().unwrap();
    assert!(!result.accepted);
    assert_eq!(result.fee, Some(9));
    assert!(result.error.unwrap().starts_with("Sign failed: "));
    let e = sign_send(&vec![], Network::LocalNet, prepared(&entries[0].address_base58), 9).err().unwrap();
    assert!(e.starts_with("Failed to derive seed: "));
}

#[test]
fn sweeps_with_bad_keys_are_not_signed() {
    let (_pool, entries) = AddressPool::generate(1, Network::LocalNet).unwrap();
    let address = entries[0].address_base58.clone();
    let inner = Drainer::sign_sweep(&entries[0], Network::LocalNet, prepared(&address));
    assert!(inner.unwrap().is_err());
    let mut bad = AddressPoolEntry { spend_key_hex: "x".to_string(), ..entries[0].clone() };
    assert_eq!(
        Drainer::sign_sweep(&bad, Network::LocalNet, prepared(&address)).err().unwrap(),
        "Invalid spend key hex"
    );
    bad.view_key_hex = "x".to_string();
    assert_eq!(
        Drainer::sign_sweep(&bad, Network::LocalNet, prepared(&address)).err().unwrap(),
        "Invalid view key hex"
    );
}

#[test]
fn refusals_carry_their_context() {
    assert_eq!(in_context("a: ", Ok::<u8, String>(3)), Ok(3));
    assert_eq!(in_context("a: ", Err::<u8, String>("b".to_string())), Err("a: b".to_string()));
}

fn recipient(address: &str, amount: u64) -> PaymentRecipient {
    PaymentRecipient {
        amount: MicroMinotari(amount),
        output_features: OutputFeatures::default(),
        address: TariAddress::from_base58(address).unwrap(),
        payment_id: MemoField::new_empty(),
    }
}

fn output(manager: &KeyManager, amount: u64) -> WalletOutput {
    let (mask, script_key) = manager.get_next_commitment_mask_and_script_key().unwrap();
    let offset = manager.get_random_key(None, None).unwrap();
    WalletOutputBuilder::new(MicroMinotari(amount), mask.key_id)
        .with_script(Default::default())
        .with_input_data(Default::default())
        .with_script_key(script_key.key_id)
        .encrypt_data_for_recovery(manager, None, MemoField::new_empty())
        .unwrap()
        .sign_metadata_signature(manager, &offset.key_id)
        .unwrap()
        .try_build(manager)
        .unwrap()
}

#[test]
fn a_covered_payment_is_signed_with_the_seed_of_the_wallet() {
    let words = seed_words();
    let manager = derive_key_manager(&words).unwrap();
    let (_pool, entries) = AddressPool::generate(1, Network::LocalNet).unwrap();
    let mut request = prepared(&entries[0].address_base58);
    request.info.inputs = vec![output(&manager, 1_000_000)];
    request.info.recipients = vec![recipient(&entries[0].address_base58, 900_000)];
    request.info.fee = MicroMinotari(100_000);
    let signed = sign_send(&words, Network::LocalNet, request.clone(), 9).unwrap().ok().unwrap();
    assert!(signed.request == request);
    assert_eq!(signed.signed_transaction.sent_hashes.len(), 1);
}

#[test]
fn amounts_that_overflow_are_not_handed_to_the_signer() {
    let words = seed_words();
    let manager = derive_key_manager(&words).unwrap();
    let (_pool, entries) = AddressPool::generate(1, Network::LocalNet).unwrap();
    let mut request = prepared(&entries[0].address_base58);
    request.info.outputs = vec![output(&manager, 1 << 63)];
    request.info.recipients = vec![recipient(&entries[0].address_base58, 1 << 63)];
    let swept = Drainer::sign_sweep(&entries[0], Network::LocalNet, request.clone()).unwrap();
    assert_eq!(swept.err().unwrap(), "Transaction amount overflows u64");
    let sent = sign_send(&words, Network::LocalNet, request, 9).unwrap().err().unwrap();
    assert_eq!(sent.error.unwrap(), "Sign failed: Transaction amount overflows u64");
    assert_eq!((sent.accepted, sent.fee), (false, Some(9)));
}

#[test]
fn memos_that_cannot_be_written_are_not_handed_to_the_signer() {
    let manager = derive_key_manager(&seed_words()).unwrap();
    let (_pool, entries) = AddressPool::generate(1, Network::LocalNet).unwrap();
    let base58 = entries[0].address_base58.as_str();
    let address = TariAddress::from_base58(base58).unwrap();
    let with_memo = |bytes: usize| {
        let mut request = prepared(base58);
        let mut to = recipient(base58, 5);
        to.payment_id = MemoField::address_and_data_unchecked(
            address.clone(), true, MicroMinotari(0), TxType::PaymentToOther, vec![0; bytes],
        );
        request.info.recipients = vec![to];
        sign_prepared(&manager, Network::LocalNet, request).err().unwrap()
    };
    assert_eq!(with_memo(256), "Memo is too long");
    assert_ne!(with_memo(20), "Memo is too long");
}

#[test]
fn addresses_of_the_wrong_size_are_not_handed_to_the_signer() {
    let manager = derive_key_manager(&seed_words()).unwrap();
    let (_pool, entries) = AddressPool::generate(1, Network::LocalNet).unwrap();
    let base58 = entries[0].address_base58.as_str();
    let mut bytes = TariAddress::from_base58(base58).unwrap().to_vec();
    bytes.pop();
    bytes.extend_from_slice(&[3; 80]);
    bytes.push(compute_checksum(&bytes));
    let mut request = prepared(base58);
    let mut to = recipient(base58, 5);
    to.address = TariAddress::from_bytes(&bytes).unwrap();
    request.info.recipients = vec![to];
    assert_eq!(
        sign_prepared(&manager, Network::LocalNet, request).err().unwrap(),
        "Recipient address has the wrong size"
    );
}

#[test]
fn prepared_transactions_are_judged_by_their_sizes() {
    let memo = |address: Option<(usize, usize)>, hashes: Option<usize>, payment_id: usize| {
        judge_prepared(&vec![], &vec![], &vec![], &vec![MemoSizes { address, hashes, payment_id }])
    };
    let too_long = Err("Memo is too long".to_string());
    assert_eq!(memo(None, None, 1000), Ok(()));
    assert_eq!(memo(Some((67, 67)), Some(255), 255), Ok(()));
    assert_eq!(memo(Some((255, 255)), None, 0), Ok(()));
    assert_eq!(memo(Some((67, 67)), None, 256), too_long);
    assert_eq!(memo(Some((67, 67)), Some(256), 0), too_long);
    assert_eq!(memo(Some((256, 256)), None, 0), too_long);
    assert_eq!(memo(Some((67, 68)), None, 0), too_long);
    assert_eq!(judge_prepared(&vec![1, 2], &vec![u64::MAX - 3], &vec![], &vec![]), Ok(()));
    assert_eq!(
        judge_prepared(&vec![1, 2], &vec![u64::MAX - 2], &vec![(1, 2)], &vec![]),
        Err("Transaction amount overflows u64".to_string())
    );
    assert_eq!(
        judge_prepared(&vec![u64::MAX, 1], &vec![], &vec![], &vec![]),
        Err("Transaction amount overflows u64".to_string())
    );
    assert_eq!(judge_prepared(&vec![], &vec![], &vec![(67, 67)], &vec![]), Ok(()));
    assert_eq!(
        judge_prepared(&vec![], &vec![], &vec![(67, 67), (67, 68)], &vec![]),
        Err("Recipient address has the wrong size".to_string())
    );
}

fn address_of_keys(view: &[u8], spend: &[u8]) -> TariAddress {
    TariAddress::new_dual_address(
        CompressedPublicKey::new(view),
        CompressedPublicKey::new(spend),
        tari_common::configuration::Network::LocalNet,
        TariAddressFeatures::default(),
        None,
    )
    .unwrap()
}

#[test]
fn keys_of_the_wrong_size_are_not_handed_to_the_signer() {
    let words = seed_words();
    let (_pool, entries) = AddressPool::generate(1, Network::LocalNet).unwrap();
    let base58 = entries[0].address_base58.as_str();
    for odd in [address_of_keys(&[1; 31], &[2; 32]), address_of_keys(&[1; 32], &[2; 33])] {
        let mut request = prepared(base58);
        let mut to = recipient(base58, 5);
        to.address = odd.clone();
        request.info.recipients = vec![to];
        let swept = Drainer::sign_sweep(&entries[0], Network::LocalNet, request).unwrap();
        assert_eq!(swept.err().unwrap(), "Recipient address has the wrong size");

        let mut request = prepared(base58);
        let mut to = recipient(base58, 5);
        to.payment_id = MemoField::address_and_data_unchecked(
            odd, true, MicroMinotari(0), TxType::PaymentToOther, vec![],
        );
        request.info.recipients = vec![to];
        let sent = sign_send(&words, Network::LocalNet, request, 9).unwrap().err().unwrap();
        assert_eq!(sent.error.unwrap(), "Sign failed: Recipient address has the wrong size");
    }
}

#[test]
fn key_sizes_are_judged() {
    let wrong = Err("Recipient address has the wrong size".to_string());
    let keys = |view: Option<usize>, spend: usize| Some(KeySizes { view, spend });
    assert_eq!(judge_key_sizes(&vec![]), Ok(()));
    assert_eq!(judge_key_sizes(&vec![None, keys(None, 32), keys(Some(32), 32)]), Ok(()));
    assert_eq!(judge_key_sizes(&vec![keys(Some(32), 32), keys(Some(31), 32)]), wrong);
    assert_eq!(judge_key_sizes(&vec![keys(Some(32), 33), None]), wrong);
    assert_eq!(judge_key_sizes(&vec![keys(None, 0)]), wrong);
}
