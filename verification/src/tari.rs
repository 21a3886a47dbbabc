//! What the harness takes from the Tari crates: network names, keys,
//! addresses, seeds and payment references.
use rand::rand_core::UnwrapErr;
use rand::rngs::SysRng;
use std::str::FromStr;
use tari_common_types::payment_reference::generate_payment_reference;
use tari_common_types::seeds::cipher_seed::CipherSeed;
use tari_common_types::seeds::mnemonic::Mnemonic;
use tari_common_types::seeds::seed_words::SeedWords;
use tari_common_types::tari_address::TariAddress;
use tari_common_types::types::{CompressedPublicKey, FixedHash, PrivateKey};
use tari_crypto::keys::SecretKey;
use tari_crypto::tari_utilities::hex::Hex;
use vstd::prelude::*;
use vstd::string::*;

use crate::text::{concat, join, joined, lowercased, texts};

verus! {

// ---------------------------------------------------------------------------
// Networks
// ---------------------------------------------------------------------------

/// The Tari networks.
#[derive(Clone, Copy, Debug, PartialEq, Eq, Structural)]
pub enum Network {
    MainNet,
    StageNet,
    NextNet,
    LocalNet,
    Igor,
    Esmeralda,
}

/// The network with a given lowercase name.
pub open spec fn network_named(lower: Seq<char>) -> Option<Network> {
    if lower == "mainnet"@ {
        Some(Network::MainNet)
    } else if lower == "nextnet"@ {
        Some(Network::NextNet)
    } else if lower == "stagenet"@ {
        Some(Network::StageNet)
    } else if lower == "localnet"@ {
        Some(Network::LocalNet)
    } else if lower == "igor"@ {
        Some(Network::Igor)
    } else if lower == "esmeralda"@ || lower == "esme"@ {
        Some(Network::Esmeralda)
    } else {
        None
    }
}

/// What the network parser says of a name that it does not know.
pub open spec fn unknown_network_text(name: Seq<char>) -> Seq<char> {
    "Invalid value `"@ + name + "` for network: Invalid network option: "@ + lowercased(name)
}

/// `Network::from_str` of `tari_common`: the network whose name is the
/// lowercase of `name`, or the parser's own message.
#[verifier::external_body]
fn network_from_str(name: &str) -> (r: Result<Network, String>)
    ensures
        match network_named(lowercased(name@)) {
            Some(n) => r matches Ok(m) && m == n,
            None => r matches Err(e) && e@ == unknown_network_text(name@),
        },
{
    match tari_common::configuration::Network::from_str(name) {
        Ok(tari_common::configuration::Network::MainNet) => Ok(Network::MainNet),
        Ok(tari_common::configuration::Network::StageNet) => Ok(Network::StageNet),
        Ok(tari_common::configuration::Network::NextNet) => Ok(Network::NextNet),
        Ok(tari_common::configuration::Network::LocalNet) => Ok(Network::LocalNet),
        Ok(tari_common::configuration::Network::Igor) => Ok(Network::Igor),
        Ok(tari_common::configuration::Network::Esmeralda) => Ok(Network::Esmeralda),
        Err(e) => Err(e.to_string()),
    }
}

/// The message for a network name that is not known.
pub open spec fn invalid_network_text(name: Seq<char>) -> Seq<char> {
    "Invalid network '"@ + name + "': "@ + unknown_network_text(name)
}

/// Puts `context` before the message of a refusal.
pub fn in_context<T>(context: &str, outcome: Result<T, String>) -> (r: Result<T, String>)
    ensures
        match outcome {
            Ok(v) => r == Ok::<T, String>(v),
            Err(t) => r matches Err(e) && e@ == context@ + t@,
        },
{
    match outcome {
        Ok(v) => Ok(v),
        Err(t) => Err(concat(context, t.as_str())),
    }
}

/// The network with the given name, in any letter case; a refusal carries the
/// parser's message behind `context`.
pub fn network_or(context: &str, name: &str) -> (r: Result<Network, String>)
    ensures
        match network_named(lowercased(name@)) {
            Some(n) => r matches Ok(m) && m == n,
            None => r matches Err(e) && e@ == context@ + unknown_network_text(name@),
        },
{
    in_context(context, network_from_str(name))
}

/// The network with the given name, in any letter case.
pub fn parse_network(name: &str) -> (r: Result<Network, String>)
    ensures
        match network_named(lowercased(name@)) {
            Some(n) => r matches Ok(m) && m == n,
            None => r matches Err(e) && e@ == invalid_network_text(name@),
        },
{
    let mut context = concat("Invalid network '", name);
    context.append("': ");
    network_or(context.as_str(), name)
}

// ---------------------------------------------------------------------------
// Keys and addresses
// ---------------------------------------------------------------------------

/// The bytes of the secret key that `PrivateKey::from_hex` reads from a text,
/// or nothing where it refuses the text.
pub uninterp spec fn secret_key_of(hex: Seq<char>) -> Option<Seq<u8>>;

/// `PrivateKey::from_hex` accepts the text.
pub open spec fn secret_key_valid(hex: Seq<char>) -> bool {
    secret_key_of(hex) is Some
}

/// The base58 form of the dual address, with default features, of the public
/// keys of two secret keys given in hex.
pub uninterp spec fn dual_address_base58(
    view_key_hex: Seq<char>,
    spend_key_hex: Seq<char>,
    network: Network,
) -> Seq<char>;

/// The message with which `TariAddress::from_base58` refuses a text, or
/// nothing where it accepts it.
pub uninterp spec fn address_error(base58: Seq<char>) -> Option<Seq<char>>;

/// `PrivateKey::from_hex` of `tari_crypto`: whether it accepts the text, which
/// depends on the text alone.
#[verifier::external_body]
pub(crate) fn is_secret_key(hex: &str) -> (r: bool)
    ensures
        r == (secret_key_of(hex@) is Some),
{
    PrivateKey::from_hex(hex).is_ok()
}

/// `PrivateKey::random` of `tari_crypto` on the operating system's random
/// source, as hex. Every outcome is a text that `PrivateKey::from_hex`
/// accepts; which one it is rests on chance. A machine whose random source
/// fails gives no outcome at all: the call then panics.
#[verifier::external_body]
pub(crate) fn random_secret_key_hex() -> (r: String)
    ensures
        secret_key_of(r@) is Some,
{
    PrivateKey::random(&mut UnwrapErr(SysRng)).to_hex()
}

/// `TariAddress::new_dual_address_with_default_features` of
/// `tari_common_types` on the public keys of two secret keys, as base58. The
/// construction refuses no pair of public keys, and `TariAddress::from_base58`
/// accepts what it gives.
#[verifier::external_body]
pub(crate) fn dual_address(view_key_hex: &str, spend_key_hex: &str, network: Network) -> (r: Result<
    String,
    String,
>)
    requires
        secret_key_valid(view_key_hex@),
        secret_key_valid(spend_key_hex@),
    ensures
        r is Ok,
        r->Ok_0@ == dual_address_base58(view_key_hex@, spend_key_hex@, network),
        address_error(r->Ok_0@) is None,
{
    let view = PrivateKey::from_hex(view_key_hex).map_err(|e| e.to_string())?;
    let spend = PrivateKey::from_hex(spend_key_hex).map_err(|e| e.to_string())?;
    let outside = match network {
        Network::MainNet => tari_common::configuration::Network::MainNet,
        Network::StageNet => tari_common::configuration::Network::StageNet,
        Network::NextNet => tari_common::configuration::Network::NextNet,
        Network::LocalNet => tari_common::configuration::Network::LocalNet,
        Network::Igor => tari_common::configuration::Network::Igor,
        Network::Esmeralda => tari_common::configuration::Network::Esmeralda,
    };
    let view = CompressedPublicKey::from_secret_key(&view);
    let spend = CompressedPublicKey::from_secret_key(&spend);
    TariAddress::new_dual_address_with_default_features(view, spend, outside).map(|a| a.to_base58()).map_err(|e| e.to_string())
}

/// `TariAddress::from_base58` of `tari_common_types`: whether it accepts the
/// text, and its message where it does not, which depend on the text alone.
#[verifier::external_body]
pub(crate) fn check_base58(base58: &str) -> (r: Result<(), String>)
    ensures
        match address_error(base58@) {
            None => r is Ok,
            Some(t) => r matches Err(e) && e@ == t,
        },
{
    TariAddress::from_base58(base58).map(|_a| ()).map_err(|e| e.to_string())
}

/// Checks a recipient address; a refusal starts with `context`.
pub fn check_address(context: &str, base58: &str) -> (r: Result<(), String>)
    ensures
        match address_error(base58@) {
            None => r is Ok,
            Some(t) => r matches Err(e) && e@ == context@ + t,
        },
{
    in_context(context, check_base58(base58))
}

// ---------------------------------------------------------------------------
// Seeds
// ---------------------------------------------------------------------------

/// The birthday of the cipher seed that a phrase encodes, or the message with
/// which the phrase is refused.
pub uninterp spec fn seed_of_phrase(phrase: Seq<char>) -> Result<u16, Seq<char>>;

/// `SeedWords::from_str` and `CipherSeed::from_mnemonic` (no passphrase) of
/// `tari_common_types`: the birthday of the decoded seed, or the decoder's
/// message, which depend on the phrase alone.
#[verifier::external_body]
pub(crate) fn decode_seed(phrase: &str) -> (r: Result<u16, String>)
    ensures
        match seed_of_phrase(phrase@) {
            Ok(b) => r matches Ok(x) && x == b,
            Err(t) => r matches Err(e) && e@ == t,
        },
{
    let words = SeedWords::from_str(phrase).map_err(|e| e.to_string())?;
    CipherSeed::from_mnemonic(&words, None).map(|seed| seed.birthday()).map_err(|e| e.to_string())
}

/// Decodes a seed phrase; a refusal starts with `context`.
pub fn restore_seed(context: &str, phrase: &str) -> (r: Result<u16, String>)
    ensures
        match seed_of_phrase(phrase@) {
            Ok(b) => r matches Ok(x) && x == b,
            Err(t) => r matches Err(e) && e@ == context@ + t,
        },
{
    in_context(context, decode_seed(phrase))
}

/// Decodes a list of seed words, joined with single spaces.
pub fn derive_seed(seed_words: &Vec<String>) -> (r: Result<u16, String>)
    ensures
        match seed_of_phrase(joined(texts(seed_words@), " "@)) {
            Ok(b) => r matches Ok(x) && x == b,
            Err(t) => r matches Err(e) && e@ == "Failed to derive seed: "@ + t,
        },
{
    restore_seed("Failed to derive seed: ", join(seed_words, " ").as_str())
}

// ---------------------------------------------------------------------------
// Payment references and request keys
// ---------------------------------------------------------------------------

/// The payment reference of an output in a block.
pub uninterp spec fn payment_reference_of(block_hash: Seq<u8>, output_hash: Seq<u8>) -> Seq<u8>;

/// `generate_payment_reference` of `tari_common_types`: a hash of 32 bytes over
/// the block hash and the output hash, which depends on them alone.
#[verifier::external_body]
pub(crate) fn payment_reference(block_hash: &[u8; 32], output_hash: &[u8; 32]) -> (r: Vec<u8>)
    ensures
        r@ == payment_reference_of(block_hash@, output_hash@),
        r@.len() == 32,
{
    let block = FixedHash::from(*block_hash);
    let output = FixedHash::from(*output_hash);
    generate_payment_reference(&block, &output).to_vec()
}

/// A lowercase hexadecimal digit.
pub open spec fn hex_digit(c: char) -> bool {
    ('0' <= c && c <= '9') || ('a' <= c && c <= 'f')
}

/// The hyphenated form of a random (version 4) UUID.
pub open spec fn uuid_form(s: Seq<char>) -> bool {
    &&& s.len() == 36
    &&& s[14] == '4'
    &&& forall|i: int|
        0 <= i < 36 ==> if i == 8 || i == 13 || i == 18 || i == 23 {
            #[trigger] s[i] == '-'
        } else {
            hex_digit(s[i])
        }
}

/// `Uuid::new_v4` of `uuid` in its hyphenated form; which one it is rests on
/// chance.
#[verifier::external_body]
pub(crate) fn new_request_key() -> (r: String)
    ensures
        uuid_form(r@),
{
    uuid::Uuid::new_v4().to_string()
}

/// The names of the networks, in any letter case; Esmeralda has a short one
/// too. No other name is taken.
pub proof fn law_networks_go_by_their_names(name: &str, r: Result<Network, String>)
    requires
        call_ensures(parse_network, (name,), r),
    ensures
        lowercased(name@) == "mainnet"@ ==> r == Ok::<Network, String>(Network::MainNet),
        lowercased(name@) == "stagenet"@ ==> r == Ok::<Network, String>(Network::StageNet),
        lowercased(name@) == "nextnet"@ ==> r == Ok::<Network, String>(Network::NextNet),
        lowercased(name@) == "localnet"@ ==> r == Ok::<Network, String>(Network::LocalNet),
        lowercased(name@) == "igor"@ ==> r == Ok::<Network, String>(Network::Igor),
        lowercased(name@) == "esmeralda"@ ==> r == Ok::<Network, String>(Network::Esmeralda),
        lowercased(name@) == "esme"@ ==> r == Ok::<Network, String>(Network::Esmeralda),
        lowercased(name@) != "mainnet"@ && lowercased(name@) != "stagenet"@ && lowercased(name@)
            != "nextnet"@ && lowercased(name@) != "localnet"@ && lowercased(name@) != "igor"@
            && lowercased(name@) != "esmeralda"@ && lowercased(name@) != "esme"@ ==> r is Err,
{
    reveal_strlit("mainnet");
    reveal_strlit("stagenet");
    reveal_strlit("nextnet");
    reveal_strlit("localnet");
    reveal_strlit("igor");
    reveal_strlit("esmeralda");
    reveal_strlit("esme");
    assert("mainnet"@[0] != "nextnet"@[0]);
    assert("stagenet"@[0] != "localnet"@[0]);
    assert("igor"@[0] != "esme"@[0]);
}

/// A context comes before the message of a refusal and changes nothing else.
pub proof fn law_context_comes_first(
    context: &str,
    outcome: Result<u16, String>,
    r: Result<u16, String>,
)
    requires
        call_ensures(in_context::<u16>, (context, outcome), r),
    ensures
        outcome is Ok <==> r is Ok,
        outcome is Ok ==> r->Ok_0 == outcome->Ok_0,
        outcome is Err ==> r->Err_0@ == context@ + outcome->Err_0@,
{
}

/// An address is refused, behind the context, with what is wrong with it; a
/// seed phrase likewise. Seed words are decoded with single spaces between
/// them.
pub proof fn law_refusals_carry_their_context(
    context: &str,
    base58: &str,
    address: Result<(), String>,
    phrase: &str,
    seed: Result<u16, String>,
    seed_words: Vec<String>,
    sep: &str,
    spaced: String,
    derived: Result<u16, String>,
    name: &str,
    network: Result<Network, String>,
    parsed: Result<Network, String>,
)
    requires
        call_ensures(check_address, (context, base58), address),
        call_ensures(restore_seed, (context, phrase), seed),
        call_ensures(derive_seed, (&seed_words,), derived),
        sep@ == " "@,
        call_ensures(join, (&seed_words, sep), spaced),
        call_ensures(network_or, (context, name), network),
        call_ensures(parse_network, (name,), parsed),
    ensures
        address is Ok <==> address_error(base58@) is None,
        address is Err ==> address->Err_0@ == context@ + address_error(base58@)->Some_0,
        seed is Ok <==> seed_of_phrase(phrase@) is Ok,
        seed is Ok ==> seed->Ok_0 == seed_of_phrase(phrase@)->Ok_0,
        seed is Err ==> seed->Err_0@ == context@ + seed_of_phrase(phrase@)->Err_0,
        derived is Ok <==> seed_of_phrase(spaced@) is Ok,
        derived is Ok ==> derived->Ok_0 == seed_of_phrase(spaced@)->Ok_0,
        derived is Err ==> derived->Err_0@ == "Failed to derive seed: "@ + seed_of_phrase(
            spaced@,
        )->Err_0,
        network is Ok <==> parsed is Ok,
        network is Ok ==> network->Ok_0 == parsed->Ok_0,
{
}

} // verus!
