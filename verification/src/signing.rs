//! Key managers and transaction signing.
use std::str::FromStr;
use tari_common_types::seeds::cipher_seed::CipherSeed;
use tari_common_types::seeds::mnemonic::Mnemonic;
use tari_common_types::seeds::seed_words::SeedWords;
use tari_common_types::tari_address::TariAddress;
use tari_common_types::types::PrivateKey;
use tari_crypto::tari_utilities::hex::Hex;
use tari_crypto::tari_utilities::ByteArray;
use tari_transaction_components::consensus::ConsensusConstantsBuilder;
use tari_transaction_components::key_manager::wallet_types::{
    SeedWordsWallet, SpendWallet, WalletType,
};
use tari_transaction_components::key_manager::KeyManager;
use tari_transaction_components::offline_signing::models::{
    PrepareOneSidedTransactionForSigningResult, SignedOneSidedTransactionResult,
};
use tari_transaction_components::offline_signing::sign_locked_transaction;
use tari_transaction_components::transaction_components::MemoField;
use vstd::prelude::*;
use vstd::string::*;

use crate::tari::{derive_seed, secret_key_of, seed_of_phrase, Network};
use crate::text::{join, joined, texts};

verus! {

/// The key manager of `tari_transaction_components`.
#[verifier::external_type_specification]
#[verifier::external_body]
pub struct ExKeyManager(KeyManager);

/// A prepared transaction of `tari_transaction_components`, with its inputs
/// locked and not yet signed.
#[verifier::external_type_specification]
#[verifier::external_body]
pub struct ExPrepared(PrepareOneSidedTransactionForSigningResult);

/// A signed transaction of `tari_transaction_components`.
#[verifier::external_type_specification]
#[verifier::external_body]
pub struct ExSigned(SignedOneSidedTransactionResult);

/// The secret view key and the secret spend key that a key manager holds.
pub uninterp spec fn keys_held(manager: KeyManager) -> (Seq<u8>, Seq<u8>);

/// The secret view key and the secret spend key that belong to the seed of a
/// phrase.
pub uninterp spec fn keys_of_phrase(phrase: Seq<char>) -> (Seq<u8>, Seq<u8>);

/// The prepared transaction that a signed transaction carries.
pub uninterp spec fn request_in(
    signed: SignedOneSidedTransactionResult,
) -> PrepareOneSidedTransactionForSigningResult;

/// `KeyManager::new` of `tari_transaction_components` on a spend wallet with
/// the two keys. It refuses no spend wallet, and the manager holds these keys.
#[verifier::external_body]
pub(crate) fn spend_key_manager(view_key_hex: &str, spend_key_hex: &str) -> (r: Result<
    KeyManager,
    String,
>)
    requires
        secret_key_of(view_key_hex@) is Some,
        secret_key_of(spend_key_hex@) is Some,
    ensures
        r is Ok,
        keys_held(r->Ok_0).0 == secret_key_of(view_key_hex@)->Some_0,
        keys_held(r->Ok_0).1 == secret_key_of(spend_key_hex@)->Some_0,
{
    let view_key = PrivateKey::from_hex(view_key_hex).map_err(|e| e.to_string())?;
    let spend_key = PrivateKey::from_hex(spend_key_hex).map_err(|e| e.to_string())?;
    let wallet = WalletType::SpendWallet(SpendWallet::new(spend_key, view_key, None));
    KeyManager::new(wallet).map_err(|e| e.to_string())
}

/// `SeedWordsWallet::construct_new` and `KeyManager::new` of
/// `tari_transaction_components` on the seed of a phrase. They refuse no seed,
/// and the keys that the manager holds depend on the phrase alone.
#[verifier::external_body]
pub(crate) fn seed_key_manager(phrase: &str) -> (r: Result<KeyManager, String>)
    requires
        seed_of_phrase(phrase@) is Ok,
    ensures
        r is Ok,
        keys_held(r->Ok_0) == keys_of_phrase(phrase@),
{
    let words = SeedWords::from_str(phrase).map_err(|e| e.to_string())?;
    let seed = CipherSeed::from_mnemonic(&words, None).map_err(|e| e.to_string())?;
    let wallet = SeedWordsWallet::construct_new(seed).map_err(|e| e.to_string())?;
    KeyManager::new(WalletType::SeedWords(wallet)).map_err(|e| e.to_string())
}

/// The sizes of what a memo of a transaction puts down with its length in one
/// byte before it. Only a memo with an address does so.
#[derive(Clone, Copy, Debug)]
pub struct MemoSizes {
    /// Of the address: the size that it states, and how many bytes it writes.
    pub address: Option<(usize, usize)>,
    /// How many hashes of outputs there are.
    pub hashes: Option<usize>,
    /// How many bytes the payment id has.
    pub payment_id: usize,
}

/// How many bytes the public keys of an address have.
#[derive(Clone, Copy, Debug)]
pub struct KeySizes {
    /// An address of a single key has no view key.
    pub view: Option<usize>,
    pub spend: usize,
}

/// The amounts of the outputs and those of the recipients of a prepared
/// transaction.
pub uninterp spec fn amounts_in(
    prepared: PrepareOneSidedTransactionForSigningResult,
) -> (Seq<u64>, Seq<u64>);

/// The sizes of the public keys of the addresses in a prepared transaction:
/// those of its recipients, and after them, for each memo of its outputs and of
/// its recipients, those of the address in it, if it holds one.
pub uninterp spec fn key_sizes_in(
    prepared: PrepareOneSidedTransactionForSigningResult,
) -> Seq<Option<KeySizes>>;

/// Of the address of each recipient of a prepared transaction: the size that it
/// states, and how many bytes it writes.
pub uninterp spec fn addresses_in(
    prepared: PrepareOneSidedTransactionForSigningResult,
) -> Seq<(usize, usize)>;

/// The sizes of the memos of a prepared transaction: those of its outputs, and
/// after them those of its recipients.
pub uninterp spec fn memos_in(
    prepared: PrepareOneSidedTransactionForSigningResult,
) -> Seq<MemoSizes>;

/// Whether signing a prepared transaction for a network, with a view key and a
/// spend key, may come to an outcome. Signatures are made with random nonces,
/// so there is more than one.
pub uninterp spec fn may_sign(
    keys: (Seq<u8>, Seq<u8>),
    network: Network,
    prepared: PrepareOneSidedTransactionForSigningResult,
    outcome: Result<SignedOneSidedTransactionResult, Seq<char>>,
) -> bool;

/// The outcome of signing, with its error as text.
pub open spec fn signing_outcome(r: Result<SignedOneSidedTransactionResult, String>) -> Result<
    SignedOneSidedTransactionResult,
    Seq<char>,
> {
    match r {
        Ok(signed) => Ok(signed),
        Err(e) => Err(e@),
    }
}

/// What a list of amounts comes to.
pub open spec fn sum_of(amounts: Seq<u64>) -> int
    decreases amounts.len(),
{
    if amounts.len() == 0 {
        0
    } else {
        sum_of(amounts.drop_last()) + amounts.last()
    }
}

/// The number of bytes that a public key has.
pub const PUBLIC_KEY_BYTES: usize = 32;

/// Whether the public keys of an address, if there is one, have as many bytes
/// as keys have.
pub open spec fn keys_fit(address: Option<KeySizes>) -> bool {
    address matches Some(sizes) ==> sizes.spend == PUBLIC_KEY_BYTES && (
    sizes.view matches Some(n) ==> n == PUBLIC_KEY_BYTES)
}

/// Whether the public keys of all these addresses do.
pub open spec fn all_keys_fit(sizes: Seq<Option<KeySizes>>) -> bool {
    forall|i: int| 0 <= i < sizes.len() ==> keys_fit(#[trigger] sizes[i])
}

/// Whether an address writes as many bytes as it states.
pub open spec fn address_agrees(address: (usize, usize)) -> bool {
    address.0 == address.1
}

/// Whether each part of a memo has a length that one byte can hold, and the
/// address the size that it states.
pub open spec fn memo_fits(memo: MemoSizes) -> bool {
    memo.address matches Some(address) ==> {
        &&& address_agrees(address)
        &&& address.1 <= 255
        &&& memo.payment_id <= 255
        &&& (memo.hashes matches Some(n) ==> n <= 255)
    }
}

/// Why a prepared transaction cannot be handed to the signer, by its amounts,
/// the addresses of its recipients and its memos.
pub open spec fn unsignable(
    outputs: Seq<u64>,
    recipients: Seq<u64>,
    addresses: Seq<(usize, usize)>,
    memos: Seq<MemoSizes>,
) -> Option<Seq<char>> {
    if sum_of(outputs) + sum_of(recipients) > u64::MAX {
        Some("Transaction amount overflows u64"@)
    } else if exists|i: int| 0 <= i < addresses.len() && !address_agrees(#[trigger] addresses[i]) {
        Some("Recipient address has the wrong size"@)
    } else if exists|i: int| 0 <= i < memos.len() && !memo_fits(#[trigger] memos[i]) {
        Some("Memo is too long"@)
    } else {
        None
    }
}

/// Why a prepared transaction cannot be handed to the signer.
pub open spec fn refusal_to_sign(prepared: PrepareOneSidedTransactionForSigningResult) -> Option<
    Seq<char>,
> {
    if !all_keys_fit(key_sizes_in(prepared)) {
        Some("Recipient address has the wrong size"@)
    } else {
        unsignable(
            amounts_in(prepared).0,
            amounts_in(prepared).1,
            addresses_in(prepared),
            memos_in(prepared),
        )
    }
}

/// Whether signing comes to an outcome: the refusal where there is one, else
/// what the signer may give back for these keys, this network and this
/// transaction, which a signed transaction carries.
pub open spec fn signing_gives(
    keys: (Seq<u8>, Seq<u8>),
    network: Network,
    prepared: PrepareOneSidedTransactionForSigningResult,
    outcome: Result<SignedOneSidedTransactionResult, Seq<char>>,
) -> bool {
    match refusal_to_sign(prepared) {
        Some(refusal) => outcome == Err::<SignedOneSidedTransactionResult, Seq<char>>(refusal),
        None => may_sign(keys, network, prepared, outcome) && (outcome matches Ok(signed)
            ==> request_in(signed) == prepared),
    }
}

/// Reads the amounts of a prepared transaction of
/// `tari_transaction_components`: `WalletOutput::value` of each output, and the
/// amount of each recipient.
#[verifier::external_body]
pub(crate) fn prepared_amounts(prepared: &PrepareOneSidedTransactionForSigningResult) -> (r: (
    Vec<u64>,
    Vec<u64>,
))
    ensures
        r.0@ == amounts_in(*prepared).0,
        r.1@ == amounts_in(*prepared).1,
{
    let outputs = prepared.info.outputs.iter().map(|o| o.value().as_u64()).collect();
    let recipients = prepared.info.recipients.iter().map(|p| p.amount.as_u64()).collect();
    (outputs, recipients)
}

/// Reads the sizes of the public keys of the addresses in a prepared
/// transaction: the lengths of what `TariAddress::public_view_key` and
/// `TariAddress::public_spend_key` hold. A key can be made of any number of
/// bytes.
#[verifier::external_body]
pub(crate) fn prepared_key_sizes(prepared: &PrepareOneSidedTransactionForSigningResult) -> (r: Vec<
    Option<KeySizes>,
>)
    ensures
        r@ == key_sizes_in(*prepared),
{
    let recipients = prepared.info.recipients.iter();
    let outputs = prepared.info.outputs.iter().map(|o| o.payment_id());
    let memos = outputs.chain(prepared.info.recipients.iter().map(|p| &p.payment_id));
    let held = memos.map(|m| m.get_sender_address().or(m.get_recipient_address()));
    let addresses = recipients.map(|p| Some(p.address.clone())).chain(held);
    let sizes = |a: TariAddress| KeySizes {
        view: a.public_view_key().map(|k| k.as_bytes().len()),
        spend: a.public_spend_key().as_bytes().len(),
    };
    addresses.map(|a| a.map(sizes)).collect()
}

/// Reads the sizes of the recipients' addresses in a prepared transaction:
/// `TariAddress::get_size`, and the length of `TariAddress::to_vec`, which
/// copies each key into a place of its own size.
#[verifier::external_body]
pub(crate) fn prepared_addresses(prepared: &PrepareOneSidedTransactionForSigningResult) -> (r: Vec<
    (usize, usize),
>)
    requires
        all_keys_fit(key_sizes_in(*prepared)),
    ensures
        r@ == addresses_in(*prepared),
{
    let recipients = prepared.info.recipients.iter();
    recipients.map(|p| (p.address.get_size(), p.address.to_vec().len())).collect()
}

/// Reads the sizes of the memos of a prepared transaction, with the accessors
/// of `MemoField`: the address that a memo holds, its hashes and its payment id.
/// Of the address it takes `TariAddress::get_size` and the length of
/// `TariAddress::to_vec`.
#[verifier::external_body]
pub(crate) fn prepared_memos(prepared: &PrepareOneSidedTransactionForSigningResult) -> (r: Vec<
    MemoSizes,
>)
    requires
        all_keys_fit(key_sizes_in(*prepared)),
    ensures
        r@ == memos_in(*prepared),
{
    let outputs = prepared.info.outputs.iter().map(|o| o.payment_id());
    let memos = outputs.chain(prepared.info.recipients.iter().map(|p| &p.payment_id));
    let sizes = |m: &MemoField| MemoSizes {
        address: m.get_sender_address().or(m.get_recipient_address()).map(
            |a| (a.get_size(), a.to_vec().len()),
        ),
        hashes: m.get_sent_hashes().map(|hashes| hashes.len()),
        payment_id: m.get_payment_id().len(),
    };
    memos.map(sizes).collect()
}

/// `sign_locked_transaction` of `tari_transaction_components`, with the
/// consensus constants of the network. The outcome is one that the keys of the
/// manager, the network and the prepared transaction allow, and a signed
/// transaction carries the prepared one that it was made from. Which outcomes
/// those are is left open: signatures are made with random nonces. The signer
/// adds the amounts of outputs and recipients without a check, and writes
/// memos into room that it takes from their stated sizes, so both have to fit.
#[verifier::external_body]
pub(crate) fn sign(
    manager: &KeyManager,
    network: Network,
    prepared: PrepareOneSidedTransactionForSigningResult,
) -> (r: Result<SignedOneSidedTransactionResult, String>)
    requires
        refusal_to_sign(prepared) is None,
    ensures
        may_sign(keys_held(*manager), network, prepared, signing_outcome(r)),
        r is Ok ==> request_in(r->Ok_0) == prepared,
{
    let outside = match network {
        Network::MainNet => tari_common::configuration::Network::MainNet,
        Network::StageNet => tari_common::configuration::Network::StageNet,
        Network::NextNet => tari_common::configuration::Network::NextNet,
        Network::LocalNet => tari_common::configuration::Network::LocalNet,
        Network::Igor => tari_common::configuration::Network::Igor,
        Network::Esmeralda => tari_common::configuration::Network::Esmeralda,
    };
    let constants = ConsensusConstantsBuilder::new(outside).build();
    sign_locked_transaction(manager, constants, outside, prepared).map_err(|e| e.to_string())
}

/// Adds a list of amounts to a total, where the result fits.
fn add_all(total: u64, amounts: &Vec<u64>) -> (r: Option<u64>)
    ensures
        match r {
            Some(sum) => sum == total + sum_of(amounts@),
            None => total + sum_of(amounts@) > u64::MAX,
        },
{
    let mut sum: u64 = total;
    let mut i: usize = 0;
    while i < amounts.len()
        invariant
            i <= amounts.len(),
            sum == total + sum_of(amounts@.take(i as int)),
        decreases amounts.len() - i,
    {
        proof {
            let next = amounts@.take(i + 1);
            assert(next.drop_last() =~= amounts@.take(i as int));
            lemma_sum_of_part(amounts@, i + 1);
        }
        match sum.checked_add(amounts[i]) {
            Some(more) => {
                sum = more;
            },
            None => {
                return None;
            },
        }
        i += 1;
    }
    proof {
        assert(amounts@.take(amounts.len() as int) =~= amounts@);
    }
    Some(sum)
}

/// The first amounts of a list come to no more than all of them.
proof fn lemma_sum_of_part(amounts: Seq<u64>, n: int)
    requires
        0 <= n <= amounts.len(),
    ensures
        sum_of(amounts.take(n)) <= sum_of(amounts),
    decreases amounts.len(),
{
    if n == amounts.len() {
        assert(amounts.take(n) =~= amounts);
    } else {
        lemma_sum_of_part(amounts.drop_last(), n);
        assert(amounts.drop_last().take(n) =~= amounts.take(n));
    }
}

/// Judges whether a memo can be written.
fn judge_memo(memo: &MemoSizes) -> (r: bool)
    ensures
        r == memo_fits(*memo),
{
    match memo.address {
        Some((stated, written)) => {
            let hashes: usize = match memo.hashes {
                Some(n) => n,
                None => 0,
            };
            stated == written && written <= 255 && memo.payment_id <= 255 && hashes <= 255
        },
        None => true,
    }
}

/// Judges whether the public keys of addresses have as many bytes as keys have.
pub fn judge_key_sizes(sizes: &Vec<Option<KeySizes>>) -> (r: Result<(), String>)
    ensures
        if all_keys_fit(sizes@) {
            r is Ok
        } else {
            r matches Err(e) && e@ == "Recipient address has the wrong size"@
        },
{
    let mut i: usize = 0;
    while i < sizes.len()
        invariant
            i <= sizes.len(),
            forall|k: int| 0 <= k < i ==> keys_fit(#[trigger] sizes@[k]),
        decreases sizes.len() - i,
    {
        if let Some(keys) = sizes[i] {
            let view: usize = match keys.view {
                Some(n) => n,
                None => PUBLIC_KEY_BYTES,
            };
            if keys.spend != PUBLIC_KEY_BYTES || view != PUBLIC_KEY_BYTES {
                assert(!keys_fit(sizes@[i as int]));
                return Err("Recipient address has the wrong size".to_owned());
            }
        }
        i += 1;
    }
    Ok(())
}

/// Judges whether a prepared transaction can be handed to the signer, given its
/// amounts, the sizes of its recipients' addresses and those of its memos.
pub fn judge_prepared(
    outputs: &Vec<u64>,
    recipients: &Vec<u64>,
    addresses: &Vec<(usize, usize)>,
    memos: &Vec<MemoSizes>,
) -> (r: Result<(), String>)
    ensures
        match unsignable(outputs@, recipients@, addresses@, memos@) {
            Some(refusal) => r matches Err(e) && e@ == refusal,
            None => r is Ok,
        },
{
    let total = match add_all(0, outputs) {
        Some(sent) => add_all(sent, recipients),
        None => None,
    };
    proof {
        lemma_sum_of_part(outputs@, 0);
        lemma_sum_of_part(recipients@, 0);
    }
    if total.is_none() {
        return Err("Transaction amount overflows u64".to_owned());
    }
    let mut i: usize = 0;
    while i < addresses.len()
        invariant
            i <= addresses.len(),
            sum_of(outputs@) + sum_of(recipients@) <= u64::MAX,
            forall|k: int| 0 <= k < i ==> address_agrees(#[trigger] addresses@[k]),
        decreases addresses.len() - i,
    {
        if addresses[i].0 != addresses[i].1 {
            assert(!address_agrees(addresses@[i as int]));
            return Err("Recipient address has the wrong size".to_owned());
        }
        i += 1;
    }
    let mut j: usize = 0;
    while j < memos.len()
        invariant
            j <= memos.len(),
            sum_of(outputs@) + sum_of(recipients@) <= u64::MAX,
            forall|k: int| 0 <= k < addresses.len() ==> address_agrees(#[trigger] addresses@[k]),
            forall|k: int| 0 <= k < j ==> memo_fits(#[trigger] memos@[k]),
        decreases memos.len() - j,
    {
        if !judge_memo(&memos[j]) {
            assert(!memo_fits(memos@[j as int]));
            return Err("Memo is too long".to_owned());
        }
        j += 1;
    }
    Ok(())
}

/// Signs a prepared transaction, unless it is one that cannot be handed to the
/// signer.
pub fn sign_prepared(
    manager: &KeyManager,
    network: Network,
    prepared: PrepareOneSidedTransactionForSigningResult,
) -> (r: Result<SignedOneSidedTransactionResult, String>)
    ensures
        signing_gives(keys_held(*manager), network, prepared, signing_outcome(r)),
{
    if let Err(refusal) = judge_key_sizes(&prepared_key_sizes(&prepared)) {
        return Err(refusal);
    }
    let (outputs, recipients) = prepared_amounts(&prepared);
    let addresses = prepared_addresses(&prepared);
    let memos = prepared_memos(&prepared);
    match judge_prepared(&outputs, &recipients, &addresses, &memos) {
        Ok(()) => sign(manager, network, prepared),
        Err(refusal) => Err(refusal),
    }
}

/// The key manager of a wallet that is given by its seed words.
pub fn derive_key_manager(seed_words: &Vec<String>) -> (r: Result<KeyManager, String>)
    ensures
        match seed_of_phrase(joined(texts(seed_words@), " "@)) {
            Ok(_) => r matches Ok(m) && keys_held(m) == keys_of_phrase(
                joined(texts(seed_words@), " "@),
            ),
            Err(t) => r matches Err(e) && e@ == "Failed to derive seed: "@ + t,
        },
{
    match derive_seed(seed_words) {
        Ok(_) => seed_key_manager(join(seed_words, " ").as_str()),
        Err(e) => Err(e),
    }
}

/// The keys of addresses are in order exactly where each has 32 bytes.
pub proof fn law_keys_have_32_bytes(sizes: Vec<Option<KeySizes>>, r: Result<(), String>)
    requires
        call_ensures(judge_key_sizes, (&sizes,), r),
    ensures
        r is Ok <==> forall|i: int|
            #![trigger sizes@[i]]
            0 <= i < sizes.len() && sizes@[i] is Some ==> sizes@[i]->Some_0.spend == 32 && (
            sizes@[i]->Some_0.view is None || sizes@[i]->Some_0.view == Some(32usize)),
{
    assert(forall|i: int|
        0 <= i < sizes.len() ==> (#[trigger] keys_fit(sizes@[i]) <==> (sizes@[i] is Some
            ==> sizes@[i]->Some_0.spend == 32 && (sizes@[i]->Some_0.view is None
            || sizes@[i]->Some_0.view == Some(32usize)))));
}

proof fn lemma_sum_folds(amounts: Seq<u64>)
    ensures
        sum_of(amounts) == amounts.fold_left(0int, |sum: int, one: u64| sum + one),
    decreases amounts.len(),
{
    reveal(Seq::fold_left);
    if amounts.len() > 0 {
        lemma_sum_folds(amounts.drop_last());
    }
}

/// A prepared transaction can be handed to the signer exactly where all its
/// amounts add up within 64 bits, each recipient's address writes as many bytes
/// as it states, and in each memo with an address that address does so too and
/// no part is longer than 255.
pub proof fn law_signer_gets_what_it_can_take(
    outputs: Vec<u64>,
    recipients: Vec<u64>,
    addresses: Vec<(usize, usize)>,
    memos: Vec<MemoSizes>,
    r: Result<(), String>,
)
    requires
        call_ensures(judge_prepared, (&outputs, &recipients, &addresses, &memos), r),
    ensures
        r is Ok <==> {
            &&& outputs@.fold_left(0int, |sum: int, one: u64| sum + one) + recipients@.fold_left(
                0int,
                |sum: int, one: u64| sum + one,
            ) <= u64::MAX
            &&& forall|i: int|
                #![trigger addresses@[i]]
                0 <= i < addresses.len() ==> addresses@[i].0 == addresses@[i].1
            &&& forall|i: int|
                #![trigger memos@[i]]
                0 <= i < memos.len() && memos@[i].address is Some ==> {
                    &&& memos@[i].address->Some_0.0 == memos@[i].address->Some_0.1
                    &&& memos@[i].address->Some_0.1 <= 255
                    &&& memos@[i].payment_id <= 255
                    &&& memos@[i].hashes is Some ==> memos@[i].hashes->Some_0 <= 255
                }
        },
{
    lemma_sum_folds(outputs@);
    lemma_sum_folds(recipients@);
    assert(forall|i: int|
        0 <= i < addresses.len() ==> (#[trigger] address_agrees(addresses@[i]) <==> addresses@[i].0
            == addresses@[i].1));
    assert(forall|i: int|
        0 <= i < memos.len() ==> (#[trigger] memo_fits(memos@[i]) <==> (memos@[i].address is Some
            ==> memos@[i].address->Some_0.0 == memos@[i].address->Some_0.1
            && memos@[i].address->Some_0.1 <= 255 && memos@[i].payment_id <= 255 && (
        memos@[i].hashes is Some ==> memos@[i].hashes->Some_0 <= 255))));
}

/// A signed transaction is the one that was prepared, signed with the keys of
/// the manager for the network. One that the signer cannot take is refused.
pub proof fn law_signed_is_what_was_prepared(
    manager: KeyManager,
    network: Network,
    prepared: PrepareOneSidedTransactionForSigningResult,
    r: Result<SignedOneSidedTransactionResult, String>,
)
    requires
        call_ensures(sign_prepared, (&manager, network, prepared), r),
    ensures
        r is Ok ==> request_in(r->Ok_0) == prepared && may_sign(
            keys_held(manager),
            network,
            prepared,
            Ok(r->Ok_0),
        ),
        amounts_in(prepared).0.fold_left(0int, |sum: int, one: u64| sum + one) + amounts_in(
            prepared,
        ).1.fold_left(0int, |sum: int, one: u64| sum + one) > u64::MAX ==> r is Err,
        (exists|i: int|
            0 <= i < addresses_in(prepared).len() && (#[trigger] addresses_in(prepared)[i]).0
                != addresses_in(prepared)[i].1) ==> r is Err,
        (exists|i: int|
            0 <= i < key_sizes_in(prepared).len() && (#[trigger] key_sizes_in(prepared)[i]) is Some
                && key_sizes_in(prepared)[i]->Some_0.spend != 32) ==> r is Err,
{
    lemma_sum_folds(amounts_in(prepared).0);
    lemma_sum_folds(amounts_in(prepared).1);
    let addresses = addresses_in(prepared);
    let sizes = key_sizes_in(prepared);
    if exists|i: int|
        0 <= i < addresses.len() && (#[trigger] addresses[i]).0 != addresses[i].1 {
        let i = choose|i: int|
            0 <= i < addresses.len() && (#[trigger] addresses[i]).0 != addresses[i].1;
        assert(!address_agrees(addresses[i]));
    }
    if exists|i: int|
        0 <= i < sizes.len() && (#[trigger] sizes[i]) is Some && sizes[i]->Some_0.spend != 32 {
        let i = choose|i: int|
            0 <= i < sizes.len() && (#[trigger] sizes[i]) is Some && sizes[i]->Some_0.spend != 32;
        assert(!keys_fit(sizes[i]));
    }
}

/// A wallet's key manager holds the keys of its seed words, with single spaces
/// between them; there is one exactly where they decode.
pub proof fn law_key_manager_holds_the_seeds_keys(
    seed_words: Vec<String>,
    r: Result<KeyManager, String>,
    sep: &str,
    phrase: String,
)
    requires
        call_ensures(derive_key_manager, (&seed_words,), r),
        sep@ == " "@,
        call_ensures(join, (&seed_words, sep), phrase),
    ensures
        r is Ok <==> seed_of_phrase(phrase@) is Ok,
        r is Ok ==> keys_held(r->Ok_0) == keys_of_phrase(phrase@),
{
}

} // verus!
