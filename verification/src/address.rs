//! Addresses: encoding a public key, deriving from a mnemonic, and the
//! script hash under which an address is indexed.

use crate::error::WalletError;
use crate::hd::{
    derive_path, derive_path_spec, public_key, public_key_spec, root_key, root_key_spec,
    PublicKey,
};
use crate::mnemonic::{passphrase_or_empty, passphrase_text, to_seed, Mnemonic};
use crate::network::{Network, ScriptType};
use crate::outside::{
    asks_taproot, generator_address, generator_derive_address, generator_derive_wif, generator_hash_script,
    generator_script_hash, generator_wif, p2pkh_address, p2pkh_of, p2shwpkh_address,
    p2shwpkh_of, p2tr_address, p2tr_of, p2wpkh_address, p2wpkh_of, seed_bytes,
};
use crate::path::{
    lemma_split_rendered, parse, parse_path_spec, render_path_spec, render_step_spec, steps_wf,
    DerivationPath, PathStep, HARDENED_OFFSET,
};
use crate::text::{decimal_text, digit_char, lower_hex};
use vstd::prelude::*;

verus! {

/// An address together with where it came from.
#[derive(Debug, PartialEq, Eq)]
pub struct DerivedAddress {
    pub address: String,
    pub path: DerivationPath,
    pub script_type: ScriptType,
    pub network: Network,
}

/// What a [`DerivedAddress`] holds, as mathematical values.
pub struct DerivedAddressView {
    pub address: Seq<char>,
    pub path: Seq<PathStep>,
    pub script_type: ScriptType,
    pub network: Network,
}

impl View for DerivedAddress {
    type V = DerivedAddressView;

    open spec fn view(&self) -> DerivedAddressView {
        DerivedAddressView {
            address: self.address@,
            path: self.path@,
            script_type: self.script_type,
            network: self.network,
        }
    }
}

/// The views of a list of addresses.
pub open spec fn address_views(list: Seq<DerivedAddress>) -> Seq<DerivedAddressView> {
    Seq::new(list.len(), |i: int| list[i]@)
}

/// Whether an address reads back as it should: it has a script hash on its
/// own network, and none on a network of the other kind.
pub open spec fn confirmed(address: Seq<char>, network: Network) -> bool {
    generator_script_hash(address, network) is Some && generator_script_hash(
        address,
        network.opposite(),
    ) is None
}

/// What becomes of an address that was made for a network: it is handed
/// out if it reads back as it should.
pub open spec fn confirm_spec(address: Seq<char>, network: Network) -> Result<
    Seq<char>,
    WalletError,
> {
    if confirmed(address, network) {
        Ok(address)
    } else {
        Err(WalletError::InvalidAddress)
    }
}

/// The outcome of [`encode_address`]: the encoding that goes with the script
/// type, if it reads back as it should; bytes that are no public key cannot
/// be encoded.
pub open spec fn encode_address_spec(
    key: PublicKey,
    script_type: ScriptType,
    network: Network,
) -> Result<Seq<char>, WalletError> {
    let encoded = match script_type {
        ScriptType::Legacy => p2pkh_address(key, network),
        ScriptType::NestedSegwit => p2shwpkh_address(key, network),
        ScriptType::NativeSegwit => p2wpkh_address(key, network),
        ScriptType::Taproot => p2tr_address(key, network),
    };
    match encoded {
        Some(address) => confirm_spec(address, network),
        None => Err(WalletError::KeyDerivationFailed),
    }
}

/// The outcome of [`script_hash`].
pub open spec fn script_hash_spec(address: Seq<char>, network: Network) -> Result<
    Seq<char>,
    WalletError,
> {
    match generator_script_hash(address, network) {
        Some(hash) => Ok(hash),
        None => Err(WalletError::InvalidAddress),
    }
}

/// The script type of a full path on a network. The path must have five
/// levels, or it is malformed. Its purpose must be hardened and one of 44,
/// 49, 84 and 86, and its coin type must be the network's: otherwise path
/// and network do not go together.
pub open spec fn path_script_type(steps: Seq<PathStep>, network: Network) -> Result<
    ScriptType,
    WalletError,
> {
    if steps.len() != 5 {
        Err(WalletError::MalformedPath)
    } else if !steps[0].hardened || ScriptType::of_purpose(steps[0].index) is None {
        Err(WalletError::UnsupportedCombination)
    } else if steps[1].index != network.coin() {
        Err(WalletError::UnsupportedCombination)
    } else {
        Ok(ScriptType::of_purpose(steps[0].index).unwrap())
    }
}

/// The outcome of [`derive_by_stages`]: the seed of the mnemonic, its master
/// key, the key at the path, its public key, and the encoding of that; the
/// first stage that fails gives the error.
pub open spec fn staged_address_spec(
    phrase: Seq<char>,
    steps: Seq<PathStep>,
    script_type: ScriptType,
    network: Network,
    passphrase: Seq<char>,
) -> Result<Seq<char>, WalletError> {
    match root_key_spec(seed_bytes(phrase, passphrase)) {
        Err(e) => Err(e),
        Ok(root) => match derive_path_spec(root, steps) {
            Err(e) => Err(e),
            Ok(key) => match public_key_spec(key) {
                Err(e) => Err(e),
                Ok(public) => encode_address_spec(public, script_type, network),
            },
        },
    }
}

/// The address of a script type at a path. A taproot address is made by
/// stages, so that a tweak that cannot be made is an error. Any other is
/// the generator's, whose failure is a failed derivation, and is handed out
/// if it reads back as it should.
pub open spec fn made_address_spec(
    phrase: Seq<char>,
    steps: Seq<PathStep>,
    script_type: ScriptType,
    network: Network,
    passphrase: Seq<char>,
) -> Result<Seq<char>, WalletError> {
    if script_type == ScriptType::Taproot {
        staged_address_spec(phrase, steps, script_type, network, passphrase)
    } else {
        match generator_address(phrase, render_path_spec(steps), network, passphrase) {
            Some(made) => confirm_spec(made, network),
            None => Err(WalletError::KeyDerivationFailed),
        }
    }
}

/// The outcome of [`derive_address_at`]. The steps and the path's shape are
/// checked first; then the address is made as [`made_address_spec`] says.
pub open spec fn derive_address_spec(
    phrase: Seq<char>,
    steps: Seq<PathStep>,
    network: Network,
    passphrase: Seq<char>,
) -> Result<DerivedAddressView, WalletError> {
    if !steps_wf(steps) {
        Err(WalletError::IndexOutOfRange)
    } else {
        match path_script_type(steps, network) {
            Err(e) => Err(e),
            Ok(script_type) => match made_address_spec(
                phrase,
                steps,
                script_type,
                network,
                passphrase,
            ) {
                Ok(address) => Ok(
                    DerivedAddressView { address, path: steps, script_type, network },
                ),
                Err(e) => Err(e),
            },
        }
    }
}

/// The outcome of [`derive_address`]: the text must be a path, and then as
/// [`derive_address_spec`].
pub open spec fn derive_address_text_spec(
    phrase: Seq<char>,
    path: Seq<char>,
    network: Network,
    passphrase: Seq<char>,
) -> Result<DerivedAddressView, WalletError> {
    match parse_path_spec(path) {
        None => Err(WalletError::MalformedPath),
        Some(steps) => derive_address_spec(phrase, steps, network, passphrase),
    }
}

/// The outcome of [`derive_private_key_at`].
pub open spec fn derive_private_key_spec(
    phrase: Seq<char>,
    steps: Seq<PathStep>,
    network: Network,
    passphrase: Seq<char>,
) -> Result<Seq<char>, WalletError> {
    if !steps_wf(steps) {
        Err(WalletError::IndexOutOfRange)
    } else {
        match generator_wif(phrase, render_path_spec(steps), network, passphrase) {
            Some(wif) => Ok(wif),
            None => Err(WalletError::KeyDerivationFailed),
        }
    }
}

/// The outcome of [`derive_private_key`].
pub open spec fn derive_private_key_text_spec(
    phrase: Seq<char>,
    path: Seq<char>,
    network: Network,
    passphrase: Seq<char>,
) -> Result<Seq<char>, WalletError> {
    match parse_path_spec(path) {
        None => Err(WalletError::MalformedPath),
        Some(steps) => derive_private_key_spec(phrase, steps, network, passphrase),
    }
}

/// The conventional path of the first receiving address of the first
/// account: purpose, coin type and account hardened, then branch 0, index 0.
pub open spec fn canonical_steps(script_type: ScriptType, network: Network) -> Seq<PathStep> {
    seq![
        PathStep { index: script_type.purpose_number(), hardened: true },
        PathStep { index: network.coin(), hardened: true },
        PathStep { index: 0, hardened: true },
        PathStep { index: 0, hardened: false },
        PathStep { index: 0, hardened: false },
    ]
}

/// The path of one address of a range: the prefix, the branch (1 for
/// change, 0 for receiving), and the index.
pub open spec fn range_path(prefix: Seq<PathStep>, is_change: bool, index: u32) -> Seq<PathStep> {
    prefix.push(
        PathStep {
            index: if is_change {
                1
            } else {
                0
            },
            hardened: false,
        },
    ).push(PathStep { index, hardened: false })
}

/// What a range is derived from.
pub struct RangeSpec {
    pub phrase: Seq<char>,
    pub prefix: Seq<PathStep>,
    pub network: Network,
    pub passphrase: Seq<char>,
    pub is_change: bool,
    pub start_index: u32,
}

/// The outcome for the address at a position of a range.
pub open spec fn range_item_spec(range: RangeSpec, i: nat) -> Result<
    DerivedAddressView,
    WalletError,
> {
    derive_address_spec(
        range.phrase,
        range_path(range.prefix, range.is_change, (range.start_index + i) as u32),
        range.network,
        range.passphrase,
    )
}

/// The outcome for the first `n` addresses of a range: all of them in
/// order, or the error of the first that fails.
pub open spec fn range_items_spec(range: RangeSpec, n: nat) -> Result<
    Seq<DerivedAddressView>,
    WalletError,
>
    decreases n,
{
    if n == 0 {
        Ok(Seq::<DerivedAddressView>::empty())
    } else {
        match range_items_spec(range, (n - 1) as nat) {
            Err(e) => Err(e),
            Ok(items) => match range_item_spec(range, (n - 1) as nat) {
                Err(e) => Err(e),
                Ok(item) => Ok(items.push(item)),
            },
        }
    }
}

/// The outcome of [`derive_range`]. The prefix must be a path of three
/// levels. A range that is not empty must end within the indices below 2^31.
pub open spec fn derive_range_spec(
    phrase: Seq<char>,
    account_path_prefix: Seq<char>,
    network: Network,
    passphrase: Seq<char>,
    is_change: bool,
    start_index: u32,
    count: u32,
) -> Result<Seq<DerivedAddressView>, WalletError> {
    match parse_path_spec(account_path_prefix) {
        None => Err(WalletError::MalformedPath),
        Some(prefix) => if prefix.len() != 3 {
            Err(WalletError::MalformedPath)
        } else if count > 0 && start_index + count > HARDENED_OFFSET {
            Err(WalletError::IndexOutOfRange)
        } else {
            range_items_spec(
                RangeSpec { phrase, prefix, network, passphrase, is_change, start_index },
                count as nat,
            )
        },
    }
}

/// Every address that [`encode_address`] returns has a script hash on its
/// network, and is invalid on a network of the other kind: an address for
/// the main chain cannot be decoded by the rules of the test chain.
pub proof fn lemma_encoded_address_is_indexed(
    key: PublicKey,
    script_type: ScriptType,
    network: Network,
)
    ensures
        encode_address_spec(key, script_type, network) matches Ok(address) ==> {
            &&& script_hash_spec(address, network) is Ok
            &&& script_hash_spec(address, network.opposite()) == Err::<Seq<char>, WalletError>(
                WalletError::InvalidAddress,
            )
        },
{
}

/// Every address that [`derive_address_at`] returns has a script hash on its
/// network, and is invalid on a network of the other kind.
pub proof fn lemma_derived_address_is_indexed(
    phrase: Seq<char>,
    steps: Seq<PathStep>,
    network: Network,
    passphrase: Seq<char>,
)
    ensures
        derive_address_spec(phrase, steps, network, passphrase) matches Ok(derived) ==> {
            &&& derived.path == steps
            &&& derived.network == network
            &&& path_script_type(steps, network) == Ok::<ScriptType, WalletError>(
                derived.script_type,
            )
            &&& script_hash_spec(derived.address, network) is Ok
            &&& script_hash_spec(derived.address, network.opposite()) == Err::<
                Seq<char>,
                WalletError,
            >(WalletError::InvalidAddress)
        },
{
}

/// The addresses of a range come in ascending order of index: the one at
/// position `i` has the path of the prefix, the branch and the index
/// `start_index + i`, on the network that was asked for.
pub proof fn lemma_range_paths(range: RangeSpec, n: nat)
    ensures
        range_items_spec(range, n) matches Ok(items) ==> {
            &&& items.len() == n
            &&& forall|i: int|
                0 <= i < n ==> {
                    &&& (#[trigger] items[i]).path == range_path(
                        range.prefix,
                        range.is_change,
                        (range.start_index + i) as u32,
                    )
                    &&& items[i].network == range.network
                    &&& range_item_spec(range, i as nat) == Ok::<DerivedAddressView, WalletError>(
                        items[i],
                    )
                }
        },
    decreases n,
{
    if n > 0 {
        lemma_range_paths(range, (n - 1) as nat);
    }
}

/// The text of the path of an address in a range is the text of the prefix,
/// then `/0/` or, for change, `/1/`, then the index in decimal.
pub proof fn lemma_range_path_text(prefix: Seq<PathStep>, is_change: bool, index: u32)
    ensures
        render_path_spec(range_path(prefix, is_change, index)) == render_path_spec(prefix)
            + seq![
            '/',
            if is_change {
                '1'
            } else {
                '0'
            },
            '/',
        ] + decimal_text(index as nat),
{
    let mark = if is_change {
        '1'
    } else {
        '0'
    };
    let whole = range_path(prefix, is_change, index);
    let upper = whole.drop_last();
    assert(upper.drop_last() =~= prefix);
    assert(render_step_spec(upper.last()) =~= seq![mark]);
    assert(render_path_spec(upper) == render_path_spec(prefix) + seq!['/'] + seq![mark]);
    assert(render_path_spec(whole) =~= render_path_spec(prefix) + seq!['/', mark, '/']
        + decimal_text(index as nat));
}

/// The text of a full path of another script type than taproot does not ask
/// the generator for a taproot address.
pub proof fn lemma_other_purpose_text(steps: Seq<PathStep>, network: Network)
    requires
        steps_wf(steps),
        path_script_type(steps, network) is Ok,
        path_script_type(steps, network) != Ok::<ScriptType, WalletError>(ScriptType::Taproot),
    ensures
        !asks_taproot(render_path_spec(steps)),
{
    lemma_split_rendered(steps);
    let purpose = steps[0];
    let digits = decimal_text(purpose.index as nat);
    assert(render_step_spec(purpose) == digits.push('\''));
    assert(digits.last() == digit_char((purpose.index % 10) as nat));
    assert(digits.last() != '6');
    if render_step_spec(purpose) == seq!['8', '6', '\''] {
        assert(digits.push('\'')[1] == '6');
        assert(digits.len() == 2);
    }
}

/// The canonical path of a script type is a full path of that script type.
pub proof fn lemma_canonical_path(script_type: ScriptType, network: Network)
    ensures
        steps_wf(canonical_steps(script_type, network)),
        path_script_type(canonical_steps(script_type, network), network) == Ok::<
            ScriptType,
            WalletError,
        >(script_type),
{
}

/// Hands out an address that was made for a network if it reads back as it
/// should, so that no address leaves the library that cannot be decoded.
pub fn confirm(address: String, network: Network) -> (r: Result<String, WalletError>)
    ensures
        match r {
            Ok(same) => confirm_spec(address@, network) == Ok::<Seq<char>, WalletError>(same@),
            Err(e) => confirm_spec(address@, network) == Err::<Seq<char>, WalletError>(e),
        },
{
    let here = generator_hash_script(address.as_str(), network);
    let there = generator_hash_script(address.as_str(), network.counterpart());
    if here.is_some() && there.is_none() {
        Ok(address)
    } else {
        Err(WalletError::InvalidAddress)
    }
}

/// Encodes a public key as an address of one of the four script types. The
/// address is handed out if it reads back as it should.
pub fn encode_address(public_key: &PublicKey, script_type: ScriptType, network: Network) -> (r:
    Result<String, WalletError>)
    ensures
        match r {
            Ok(address) => encode_address_spec(*public_key, script_type, network) == Ok::<
                Seq<char>,
                WalletError,
            >(address@),
            Err(e) => encode_address_spec(*public_key, script_type, network) == Err::<
                Seq<char>,
                WalletError,
            >(e),
        },
{
    let encoded = match script_type {
        ScriptType::Legacy => p2pkh_of(public_key, network),
        ScriptType::NestedSegwit => p2shwpkh_of(public_key, network),
        ScriptType::NativeSegwit => p2wpkh_of(public_key, network),
        ScriptType::Taproot => p2tr_of(public_key, network),
    };
    match encoded {
        Some(address) => confirm(address, network),
        None => Err(WalletError::KeyDerivationFailed),
    }
}

/// The hash under which an address is indexed: the SHA-256 of its output
/// script, byte-reversed, in lower-case hex. An address that cannot be
/// decoded for the network gives `InvalidAddress`.
pub fn script_hash(address: &str, network: Network) -> (r: Result<String, WalletError>)
    ensures
        match r {
            Ok(hash) => script_hash_spec(address@, network) == Ok::<Seq<char>, WalletError>(
                hash@,
            ) && hash@.len() == 64 && lower_hex(hash@),
            Err(e) => script_hash_spec(address@, network) == Err::<Seq<char>, WalletError>(e),
        },
{
    match generator_hash_script(address, network) {
        Some(hash) => Ok(hash),
        None => Err(WalletError::InvalidAddress),
    }
}

/// The script type of a full path on a network.
pub fn script_type_of(path: &DerivationPath, network: Network) -> (r: Result<
    ScriptType,
    WalletError,
>)
    ensures
        r == path_script_type(path@, network),
{
    if path.steps.len() != 5 {
        return Err(WalletError::MalformedPath);
    }
    let purpose = path.steps[0];
    let coin = path.steps[1];
    if !purpose.hardened {
        return Err(WalletError::UnsupportedCombination);
    }
    match ScriptType::from_purpose(purpose.index) {
        None => Err(WalletError::UnsupportedCombination),
        Some(script_type) => if coin.index != network.coin_type() {
            Err(WalletError::UnsupportedCombination)
        } else {
            Ok(script_type)
        },
    }
}

/// The conventional path of the first receiving address of the first account.
pub fn canonical_path(script_type: ScriptType, network: Network) -> (r: DerivationPath)
    ensures
        r@ == canonical_steps(script_type, network),
{
    let mut steps: Vec<PathStep> = Vec::new();
    steps.push(PathStep { index: script_type.purpose(), hardened: true });
    steps.push(PathStep { index: network.coin_type(), hardened: true });
    steps.push(PathStep { index: 0, hardened: true });
    steps.push(PathStep { index: 0, hardened: false });
    steps.push(PathStep { index: 0, hardened: false });
    DerivationPath { steps }
}

/// Derives an address stage by stage: the seed of the mnemonic, its master
/// key, the key at the path, its public key, and the encoding of that.
pub fn derive_by_stages(
    mnemonic: &Mnemonic,
    path: &DerivationPath,
    script_type: ScriptType,
    network: Network,
    passphrase: Option<&str>,
) -> (r: Result<String, WalletError>)
    ensures
        match r {
            Ok(address) => staged_address_spec(
                mnemonic@,
                path@,
                script_type,
                network,
                passphrase_text(passphrase),
            ) == Ok::<Seq<char>, WalletError>(address@),
            Err(e) => staged_address_spec(
                mnemonic@,
                path@,
                script_type,
                network,
                passphrase_text(passphrase),
            ) == Err::<Seq<char>, WalletError>(e),
        },
{
    let seed = to_seed(mnemonic, passphrase);
    let root = match root_key(&seed) {
        Ok(root) => root,
        Err(e) => {
            return Err(e);
        },
    };
    let key = match derive_path(&root, path) {
        Ok(key) => key,
        Err(e) => {
            return Err(e);
        },
    };
    match public_key(&key) {
        Ok(public) => encode_address(&public, script_type, network),
        Err(e) => Err(e),
    }
}

/// Derives the address at a full path: five levels, of which the first
/// selects the script type and the second must be the network's coin type.
/// A taproot address is made by stages; any other is the generator's, and is
/// handed out if it reads back as it should.
pub fn derive_address_at(
    mnemonic: &Mnemonic,
    path: &DerivationPath,
    network: Network,
    passphrase: Option<&str>,
) -> (r: Result<DerivedAddress, WalletError>)
    ensures
        match r {
            Ok(derived) => derive_address_spec(
                mnemonic@,
                path@,
                network,
                passphrase_text(passphrase),
            ) == Ok::<DerivedAddressView, WalletError>(derived@),
            Err(e) => derive_address_spec(mnemonic@, path@, network, passphrase_text(passphrase))
                == Err::<DerivedAddressView, WalletError>(e),
        },
{
    if !path.is_wf() {
        return Err(WalletError::IndexOutOfRange);
    }
    let script_type = match script_type_of(path, network) {
        Ok(script_type) => script_type,
        Err(e) => {
            return Err(e);
        },
    };
    let made = match script_type {
        ScriptType::Taproot => derive_by_stages(mnemonic, path, script_type, network, passphrase),
        _ => {
            let text = path.render();
            proof {
                lemma_other_purpose_text(path@, network);
            }
            match generator_derive_address(
                mnemonic.as_str(),
                text.as_str(),
                network,
                passphrase_or_empty(passphrase),
            ) {
                Some(made) => confirm(made, network),
                None => Err(WalletError::KeyDerivationFailed),
            }
        },
    };
    match made {
        Ok(address) => Ok(
            DerivedAddress { address, path: path.duplicate(), script_type, network },
        ),
        Err(e) => Err(e),
    }
}

/// Derives the address at a path given as text, such as `m/84'/0'/0'/0/0`.
pub fn derive_address(
    mnemonic: &Mnemonic,
    path: &str,
    network: Network,
    passphrase: Option<&str>,
) -> (r: Result<DerivedAddress, WalletError>)
    ensures
        match r {
            Ok(derived) => derive_address_text_spec(
                mnemonic@,
                path@,
                network,
                passphrase_text(passphrase),
            ) == Ok::<DerivedAddressView, WalletError>(derived@),
            Err(e) => derive_address_text_spec(
                mnemonic@,
                path@,
                network,
                passphrase_text(passphrase),
            ) == Err::<DerivedAddressView, WalletError>(e),
        },
{
    match parse(path) {
        Err(e) => Err(e),
        Ok(steps) => derive_address_at(mnemonic, &steps, network, passphrase),
    }
}

/// Exports the private key at a path in wallet import format: the network's
/// prefix byte, the 32 bytes of the key, the flag for a compressed public
/// key, and the checksum, in Base58.
pub fn derive_private_key_at(
    mnemonic: &Mnemonic,
    path: &DerivationPath,
    network: Network,
    passphrase: Option<&str>,
) -> (r: Result<String, WalletError>)
    ensures
        match r {
            Ok(wif) => derive_private_key_spec(
                mnemonic@,
                path@,
                network,
                passphrase_text(passphrase),
            ) == Ok::<Seq<char>, WalletError>(wif@),
            Err(e) => derive_private_key_spec(
                mnemonic@,
                path@,
                network,
                passphrase_text(passphrase),
            ) == Err::<Seq<char>, WalletError>(e),
        },
{
    if !path.is_wf() {
        return Err(WalletError::IndexOutOfRange);
    }
    let text = path.render();
    match generator_derive_wif(
        mnemonic.as_str(),
        text.as_str(),
        network,
        passphrase_or_empty(passphrase),
    ) {
        Some(wif) => Ok(wif),
        None => Err(WalletError::KeyDerivationFailed),
    }
}

/// Exports the private key at a path given as text.
pub fn derive_private_key(
    mnemonic: &Mnemonic,
    path: &str,
    network: Network,
    passphrase: Option<&str>,
) -> (r: Result<String, WalletError>)
    ensures
        match r {
            Ok(wif) => derive_private_key_text_spec(
                mnemonic@,
                path@,
                network,
                passphrase_text(passphrase),
            ) == Ok::<Seq<char>, WalletError>(wif@),
            Err(e) => derive_private_key_text_spec(
                mnemonic@,
                path@,
                network,
                passphrase_text(passphrase),
            ) == Err::<Seq<char>, WalletError>(e),
        },
{
    match parse(path) {
        Err(e) => Err(e),
        Ok(steps) => derive_private_key_at(mnemonic, &steps, network, passphrase),
    }
}

/// Derives `count` addresses below an account: for each index from
/// `start_index` on, the address at the prefix, then the branch (1 for
/// change, 0 for receiving), then the index. They come in ascending order
/// of index. An empty range is no error.
#[verifier::loop_isolation(false)]
pub fn derive_range(
    mnemonic: &Mnemonic,
    account_path_prefix: &str,
    network: Network,
    passphrase: Option<&str>,
    is_change: bool,
    start_index: u32,
    count: u32,
) -> (r: Result<Vec<DerivedAddress>, WalletError>)
    ensures
        match r {
            Ok(list) => derive_range_spec(
                mnemonic@,
                account_path_prefix@,
                network,
                passphrase_text(passphrase),
                is_change,
                start_index,
                count,
            ) == Ok::<Seq<DerivedAddressView>, WalletError>(address_views(list@)),
            Err(e) => derive_range_spec(
                mnemonic@,
                account_path_prefix@,
                network,
                passphrase_text(passphrase),
                is_change,
                start_index,
                count,
            ) == Err::<Seq<DerivedAddressView>, WalletError>(e),
        },
        r matches Ok(list) ==> list@.len() == count,
{
    let prefix = match parse(account_path_prefix) {
        Ok(prefix) => prefix,
        Err(e) => {
            return Err(e);
        },
    };
    if prefix.len() != 3 {
        return Err(WalletError::MalformedPath);
    }
    if count > 0 && start_index as u64 + count as u64 > HARDENED_OFFSET as u64 {
        return Err(WalletError::IndexOutOfRange);
    }
    let ghost range = RangeSpec {
        phrase: mnemonic@,
        prefix: prefix@,
        network,
        passphrase: passphrase_text(passphrase),
        is_change,
        start_index,
    };
    let branch = PathStep {
        index: if is_change {
            1
        } else {
            0
        },
        hardened: false,
    };
    let mut list: Vec<DerivedAddress> = Vec::new();
    let mut i: u32 = 0;
    proof {
        assert(address_views(list@) =~= Seq::<DerivedAddressView>::empty());
    }
    while i < count
        invariant
            i <= count,
            range_items_spec(range, i as nat) == Ok::<Seq<DerivedAddressView>, WalletError>(
                address_views(list@),
            ),
            list@.len() == i,
        decreases count - i,
    {
        let index = start_index + i;
        let path = prefix.child(branch).child(PathStep { index, hardened: false });
        let ghost before = address_views(list@);
        match derive_address_at(mnemonic, &path, network, passphrase) {
            Err(e) => {
                proof {
                    lemma_range_fails_later(range, (i + 1) as nat, count as nat);
                }
                return Err(e);
            },
            Ok(derived) => {
                list.push(derived);
                proof {
                    assert(address_views(list@) =~= before.push(derived@));
                }
            },
        }
        i += 1;
    }
    Ok(list)
}

/// Once an address of a range fails, every longer range fails with the same error.
pub proof fn lemma_range_fails_later(range: RangeSpec, bad: nat, n: nat)
    requires
        bad <= n,
        range_items_spec(range, bad) is Err,
    ensures
        range_items_spec(range, n) == range_items_spec(range, bad),
    decreases n - bad,
{
    if bad < n {
        lemma_range_fails_later(range, bad, (n - 1) as nat);
    }
}

} // verus!
