//! The calls into the outside crates.
//!
//! Nothing in this file is proved. Each function makes one call into an
//! outside crate and converts the values on the way in and out; its contract
//! is what the rest of the library believes of that call. A result that is
//! fixed by the arguments but takes pages to describe is given a name, a
//! spec function without a body, so that contracts elsewhere can speak of it.

use crate::error::MnemonicFault;
use crate::hd::{ExtendedKey, PublicKey};
use crate::mnemonic::{Language, WordCount};
use crate::network::Network;
use crate::text::{lower_hex, split};
use vstd::prelude::*;

verus! {

/// What `bitcoin_address_generator::validate_mnemonic` finds wrong with a
/// phrase: `None` where it accepts the phrase.
pub uninterp spec fn phrase_fault(phrase: Seq<char>) -> Option<MnemonicFault>;

/// The seed that `bitcoin_address_generator::mnemonic_to_seed` returns for a
/// phrase that it accepts, and a passphrase.
pub uninterp spec fn seed_bytes(phrase: Seq<char>, passphrase: Seq<char>) -> Seq<u8>;

/// The address that `bitcoin_address_generator::derive_bitcoin_address`
/// returns, `None` where it fails.
pub uninterp spec fn generator_address(
    phrase: Seq<char>,
    path: Seq<char>,
    network: Network,
    passphrase: Seq<char>,
) -> Option<Seq<char>>;

/// The private key in wallet import format that
/// `bitcoin_address_generator::derive_private_key` returns, `None` where it
/// fails.
pub uninterp spec fn generator_wif(
    phrase: Seq<char>,
    path: Seq<char>,
    network: Network,
    passphrase: Seq<char>,
) -> Option<Seq<char>>;

/// The script hash that `bitcoin_address_generator::calculate_script_hash`
/// returns, `None` where it fails.
pub uninterp spec fn generator_script_hash(address: Seq<char>, network: Network) -> Option<
    Seq<char>,
>;

/// Calls `bitcoin_address_generator::generate_mnemonic`, which draws the
/// entropy from the thread's random number generator. Nothing is claimed of
/// the phrase: the caller checks it.
#[verifier::external_body]
pub(crate) fn generate_phrase(words: WordCount, language: Language) -> Option<String> {
    let count = match words {
        WordCount::Words12 => bitcoin_address_generator::WordCount::Words12,
        WordCount::Words15 => bitcoin_address_generator::WordCount::Words15,
        WordCount::Words18 => bitcoin_address_generator::WordCount::Words18,
        WordCount::Words21 => bitcoin_address_generator::WordCount::Words21,
        WordCount::Words24 => bitcoin_address_generator::WordCount::Words24,
    };
    let list = match language {
        Language::English => bip39::Language::English,
    };
    bitcoin_address_generator::generate_mnemonic(Some(count), Some(list)).ok()
}

/// Calls `bitcoin_address_generator::validate_mnemonic`, which decodes the
/// phrase with the `bip39` crate. The result is the kind of the decoder's
/// error, under the name `phrase_fault`.
#[verifier::external_body]
pub(crate) fn check_phrase(phrase: &str) -> (r: Option<MnemonicFault>)
    ensures
        r == phrase_fault(phrase@),
{
    match bitcoin_address_generator::validate_mnemonic(phrase) {
        Ok(()) => None,
        Err(bitcoin_address_generator::DerivationError::Bip39Error(e)) => Some(match e {
            bip39::Error::BadWordCount(_) => MnemonicFault::WordCount,
            bip39::Error::UnknownWord(_) => MnemonicFault::UnknownWord,
            bip39::Error::InvalidChecksum => MnemonicFault::Checksum,
            bip39::Error::BadEntropyBitCount(_) => MnemonicFault::Other,
            bip39::Error::AmbiguousLanguages(_) => MnemonicFault::Other,
        }),
        Err(_) => Some(MnemonicFault::Other),
    }
}

/// Calls `bitcoin_address_generator::mnemonic_to_seed`. It decodes the
/// phrase as `validate_mnemonic` does and fails only where that fails; the
/// seed has 64 bytes and goes under the name `seed_bytes`.
#[verifier::external_body]
pub(crate) fn stretch_phrase(phrase: &str, passphrase: &str) -> (r: Option<Vec<u8>>)
    ensures
        r is Some <==> phrase_fault(phrase@) is None,
        r matches Some(seed) ==> seed@ == seed_bytes(phrase@, passphrase@) && seed@.len() == 64,
{
    bitcoin_address_generator::mnemonic_to_seed(phrase, Some(passphrase)).ok()
}

/// Whether a path asks the generator for a taproot address: its field after
/// the first slash reads `86'`.
pub open spec fn asks_taproot(path: Seq<char>) -> bool {
    split(path, '/').len() > 1 && split(path, '/')[1] == seq!['8', '6', '\'']
}

/// Calls `bitcoin_address_generator::derive_bitcoin_address` and keeps the
/// address of its answer, under the name `generator_address`. A path that
/// asks for a taproot address is left out: for it alone the outside function
/// calls `bitcoin::Address::p2tr`, which panics where the tweak of the key
/// cannot be made.
#[verifier::external_body]
pub(crate) fn generator_derive_address(
    phrase: &str,
    path: &str,
    network: Network,
    passphrase: &str,
) -> (r: Option<String>)
    requires
        !asks_taproot(path@),
    ensures
        r matches Some(address) ==> generator_address(phrase@, path@, network, passphrase@)
            == Some(address@),
        r is None ==> generator_address(phrase@, path@, network, passphrase@) is None,
{
    let net = match network {
        Network::Mainnet => bitcoin::Network::Bitcoin,
        Network::Testnet => bitcoin::Network::Testnet,
        Network::Signet => bitcoin::Network::Signet,
        Network::Regtest => bitcoin::Network::Regtest,
    };
    let answer = bitcoin_address_generator::derive_bitcoin_address(
        phrase,
        Some(path),
        Some(net),
        Some(passphrase),
    );
    answer.ok().map(|found| found.address)
}

/// Calls `bitcoin_address_generator::derive_private_key`; the key in wallet
/// import format goes under the name `generator_wif`.
#[verifier::external_body]
pub(crate) fn generator_derive_wif(
    phrase: &str,
    path: &str,
    network: Network,
    passphrase: &str,
) -> (r: Option<String>)
    ensures
        r matches Some(wif) ==> generator_wif(phrase@, path@, network, passphrase@) == Some(
            wif@,
        ),
        r is None ==> generator_wif(phrase@, path@, network, passphrase@) is None,
{
    let net = match network {
        Network::Mainnet => bitcoin::Network::Bitcoin,
        Network::Testnet => bitcoin::Network::Testnet,
        Network::Signet => bitcoin::Network::Signet,
        Network::Regtest => bitcoin::Network::Regtest,
    };
    bitcoin_address_generator::derive_private_key(
        phrase,
        Some(path),
        Some(net),
        Some(passphrase),
    ).ok()
}

/// Calls `bitcoin_address_generator::calculate_script_hash`. The hash goes
/// under the name `generator_script_hash`; it is what `hex::encode` makes of
/// the 32 bytes of a SHA-256 digest, so it has 64 characters, each a digit
/// or one of `a` to `f`.
#[verifier::external_body]
pub(crate) fn generator_hash_script(address: &str, network: Network) -> (r: Option<String>)
    ensures
        r matches Some(hash) ==> generator_script_hash(address@, network) == Some(hash@)
            && hash@.len() == 64 && lower_hex(hash@),
        r is None ==> generator_script_hash(address@, network) is None,
{
    let net = match network {
        Network::Mainnet => bitcoin::Network::Bitcoin,
        Network::Testnet => bitcoin::Network::Testnet,
        Network::Signet => bitcoin::Network::Signet,
        Network::Regtest => bitcoin::Network::Regtest,
    };
    bitcoin_address_generator::calculate_script_hash(address, Some(net)).ok()
}

/// The master key that `bip32::XPrv::new` makes from a seed, `None` where it
/// fails.
pub uninterp spec fn master_key(seed: Seq<u8>) -> Option<ExtendedKey>;

/// The child that `bip32::XPrv::derive_child` derives from a key for a child
/// number, `None` where the key cannot be read or the derivation fails.
pub uninterp spec fn child_key(parent: ExtendedKey, number: u32) -> Option<ExtendedKey>;

/// The compressed public key that `bip32::XPrv::public_key` gives for a key,
/// `None` where the key cannot be read.
pub uninterp spec fn public_key_of(key: ExtendedKey) -> Option<PublicKey>;

/// The address that `bitcoin::Address::p2pkh` makes for a public key, `None`
/// where the bytes are no public key.
pub uninterp spec fn p2pkh_address(key: PublicKey, network: Network) -> Option<Seq<char>>;

/// The address that `bitcoin::Address::p2shwpkh` makes for a public key,
/// `None` where the bytes are no public key.
pub uninterp spec fn p2shwpkh_address(key: PublicKey, network: Network) -> Option<Seq<char>>;

/// The address that `bitcoin::Address::p2wpkh` makes for a public key, `None`
/// where the bytes are no public key.
pub uninterp spec fn p2wpkh_address(key: PublicKey, network: Network) -> Option<Seq<char>>;

/// The address that `bitcoin::Address::p2tr_tweaked` makes for a public key
/// that was used as internal key and tweaked without a script tree, `None`
/// where the bytes are no public key or the tweak cannot be made.
pub uninterp spec fn p2tr_address(key: PublicKey, network: Network) -> Option<Seq<char>>;

/// Calls `bip32::XPrv::new`, which computes the master key and chain code
/// from the seed. The key goes under the name `master_key`; it has depth 0
/// and child number 0, as the source sets them.
#[verifier::external_body]
pub(crate) fn master_of(seed: &Vec<u8>) -> (r: Option<ExtendedKey>)
    ensures
        r == master_key(seed@),
        r matches Some(key) ==> key.depth == 0 && key.child_number == 0,
{
    let key = bip32::XPrv::new(seed.as_slice()).ok()?.to_extended_key(bip32::Prefix::XPRV);
    Some(ExtendedKey {
        depth: key.attrs.depth,
        parent_fingerprint: key.attrs.parent_fingerprint,
        child_number: key.attrs.child_number.0,
        chain_code: key.attrs.chain_code,
        key_bytes: key.key_bytes,
    })
}

/// Calls `bip32::XPrv::derive_child` on the key that the fields describe.
/// The child goes under the name `child_key`. As the source shows, the call
/// fails for a parent of depth 255, and a child has the child number that
/// was asked for and a depth one more than its parent's.
#[verifier::external_body]
pub(crate) fn child_of(parent: &ExtendedKey, number: u32) -> (r: Option<ExtendedKey>)
    ensures
        r == child_key(*parent, number),
        parent.depth == 255 ==> r is None,
        r matches Some(child) ==> child.depth == parent.depth + 1 && child.child_number
            == number,
{
    let attrs = bip32::ExtendedKeyAttrs {
        depth: parent.depth,
        parent_fingerprint: parent.parent_fingerprint,
        child_number: bip32::ChildNumber(parent.child_number),
        chain_code: parent.chain_code,
    };
    let (prefix, key_bytes) = (bip32::Prefix::XPRV, parent.key_bytes);
    let held = bip32::XPrv::try_from(bip32::ExtendedKey { prefix, attrs, key_bytes }).ok()?;
    let key = held.derive_child(bip32::ChildNumber(number)).ok()?.to_extended_key(prefix);
    let (depth, parent_fingerprint) = (key.attrs.depth, key.attrs.parent_fingerprint);
    let (child_number, chain_code) = (key.attrs.child_number.0, key.attrs.chain_code);
    let key_bytes = key.key_bytes;
    Some(ExtendedKey { depth, parent_fingerprint, child_number, chain_code, key_bytes })
}

/// Calls `bip32::XPrv::public_key` on the key that the fields describe and
/// takes the 33 bytes of the compressed point, under the name `public_key_of`.
#[verifier::external_body]
pub(crate) fn public_of(key: &ExtendedKey) -> (r: Option<PublicKey>)
    ensures
        r == public_key_of(*key),
{
    let attrs = bip32::ExtendedKeyAttrs {
        depth: key.depth,
        parent_fingerprint: key.parent_fingerprint,
        child_number: bip32::ChildNumber(key.child_number),
        chain_code: key.chain_code,
    };
    let (prefix, key_bytes) = (bip32::Prefix::XPRV, key.key_bytes);
    let held = bip32::XPrv::try_from(bip32::ExtendedKey { prefix, attrs, key_bytes }).ok()?;
    Some(PublicKey { bytes: held.public_key().to_bytes() })
}

/// Calls `bitcoin::Address::p2pkh` and writes the address as text, under the
/// name `p2pkh_address`.
#[verifier::external_body]
pub(crate) fn p2pkh_of(key: &PublicKey, network: Network) -> (r: Option<String>)
    ensures
        r matches Some(address) ==> p2pkh_address(*key, network) == Some(address@),
        r is None ==> p2pkh_address(*key, network) is None,
{
    let net = match network {
        Network::Mainnet => bitcoin::Network::Bitcoin,
        Network::Testnet => bitcoin::Network::Testnet,
        Network::Signet => bitcoin::Network::Signet,
        Network::Regtest => bitcoin::Network::Regtest,
    };
    let point = bitcoin::key::CompressedPublicKey::from_slice(&key.bytes).ok()?;
    Some(bitcoin::Address::p2pkh(point, net).to_string())
}

/// Calls `bitcoin::Address::p2shwpkh` and writes the address as text, under
/// the name `p2shwpkh_address`.
#[verifier::external_body]
pub(crate) fn p2shwpkh_of(key: &PublicKey, network: Network) -> (r: Option<String>)
    ensures
        r matches Some(address) ==> p2shwpkh_address(*key, network) == Some(address@),
        r is None ==> p2shwpkh_address(*key, network) is None,
{
    let net = match network {
        Network::Mainnet => bitcoin::Network::Bitcoin,
        Network::Testnet => bitcoin::Network::Testnet,
        Network::Signet => bitcoin::Network::Signet,
        Network::Regtest => bitcoin::Network::Regtest,
    };
    let point = bitcoin::key::CompressedPublicKey::from_slice(&key.bytes).ok()?;
    Some(bitcoin::Address::p2shwpkh(&point, net).to_string())
}

/// Calls `bitcoin::Address::p2wpkh` and writes the address as text, under the
/// name `p2wpkh_address`.
#[verifier::external_body]
pub(crate) fn p2wpkh_of(key: &PublicKey, network: Network) -> (r: Option<String>)
    ensures
        r matches Some(address) ==> p2wpkh_address(*key, network) == Some(address@),
        r is None ==> p2wpkh_address(*key, network) is None,
{
    let net = match network {
        Network::Mainnet => bitcoin::Network::Bitcoin,
        Network::Testnet => bitcoin::Network::Testnet,
        Network::Signet => bitcoin::Network::Signet,
        Network::Regtest => bitcoin::Network::Regtest,
    };
    let point = bitcoin::key::CompressedPublicKey::from_slice(&key.bytes).ok()?;
    Some(bitcoin::Address::p2wpkh(&point, net).to_string())
}

/// Makes the taproot output key with the calls that can fail,
/// `bitcoin::TapTweakHash::from_key_and_tweak`, `Scalar::from_be_bytes` and
/// `XOnlyPublicKey::add_tweak`, and calls `bitcoin::Address::p2tr_tweaked` on
/// it. The address goes under the name `p2tr_address`. Where the hash is no
/// scalar or cannot be added to the key, the result is `None`.
#[verifier::external_body]
pub(crate) fn p2tr_of(key: &PublicKey, network: Network) -> (r: Option<String>)
    ensures
        r matches Some(address) ==> p2tr_address(*key, network) == Some(address@),
        r is None ==> p2tr_address(*key, network) is None,
{
    let net = match network {
        Network::Mainnet => bitcoin::Network::Bitcoin,
        Network::Testnet => bitcoin::Network::Testnet,
        Network::Signet => bitcoin::Network::Signet,
        Network::Regtest => bitcoin::Network::Regtest,
    };
    let point = bitcoin::key::CompressedPublicKey::from_slice(&key.bytes).ok()?;
    let internal = bitcoin::secp256k1::XOnlyPublicKey::from(point.0);
    let hash = bitcoin::TapTweakHash::from_key_and_tweak(internal, None);
    let bytes = bitcoin::hashes::Hash::to_byte_array(hash);
    let tweak = bitcoin::secp256k1::Scalar::from_be_bytes(bytes).ok()?;
    let secp = bitcoin::secp256k1::Secp256k1::verification_only();
    let (output, _) = internal.add_tweak(&secp, &tweak).ok()?;
    let tweaked = bitcoin::key::TweakedPublicKey::dangerous_assume_tweaked(output);
    Some(bitcoin::Address::p2tr_tweaked(tweaked, net).to_string())
}

} // verus!
