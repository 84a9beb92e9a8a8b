//! Hierarchical deterministic keys: the master key of a seed and the keys
//! below it.

use crate::error::WalletError;
use crate::mnemonic::Seed;
use crate::outside::{child_key, child_of, master_key, master_of, public_key_of, public_of};
use crate::path::{DerivationPath, PathStep, HARDENED_OFFSET};
use vstd::prelude::*;

verus! {

/// An extended private key, field by field as BIP32 serialises it.
#[derive(Clone, Copy, Debug, PartialEq, Eq)]
pub struct ExtendedKey {
    /// The number of steps from the master key.
    pub depth: u8,
    /// The first four bytes of the parent's key identifier; zeros for the master key.
    pub parent_fingerprint: [u8; 4],
    /// The child number under which the parent derived this key; 0 for the master key.
    pub child_number: u32,
    /// The chain code.
    pub chain_code: [u8; 32],
    /// A zero byte, then the 32 bytes of the private key.
    pub key_bytes: [u8; 33],
}

/// A compressed public key: the sign byte and the x coordinate.
#[derive(Clone, Copy, Debug, PartialEq, Eq)]
pub struct PublicKey {
    pub bytes: [u8; 33],
}

/// The outcome of [`root_key`].
pub open spec fn root_key_spec(seed: Seq<u8>) -> Result<ExtendedKey, WalletError> {
    match master_key(seed) {
        Some(key) => Ok(key),
        None => Err(WalletError::KeyDerivationFailed),
    }
}

/// The outcome of [`derive_child`]: an index of 2^31 or more is out of range,
/// a parent of depth 255 has no children, and otherwise the derivation decides.
pub open spec fn derive_child_spec(parent: ExtendedKey, index: u32, hardened: bool) -> Result<
    ExtendedKey,
    WalletError,
> {
    let step = PathStep { index, hardened };
    if index >= HARDENED_OFFSET {
        Err(WalletError::IndexOutOfRange)
    } else if parent.depth == 255 {
        Err(WalletError::KeyDerivationFailed)
    } else {
        match child_key(parent, step.child_number() as u32) {
            Some(child) => Ok(child),
            None => Err(WalletError::KeyDerivationFailed),
        }
    }
}

/// The outcome of [`derive_path`]: one [`derive_child_spec`] for each step in
/// order, up to the first that fails.
pub open spec fn derive_path_spec(root: ExtendedKey, steps: Seq<PathStep>) -> Result<
    ExtendedKey,
    WalletError,
>
    decreases steps.len(),
{
    if steps.len() == 0 {
        Ok(root)
    } else {
        match derive_path_spec(root, steps.drop_last()) {
            Err(e) => Err(e),
            Ok(key) => derive_child_spec(key, steps.last().index, steps.last().hardened),
        }
    }
}

/// The outcome of [`public_key`].
pub open spec fn public_key_spec(key: ExtendedKey) -> Result<PublicKey, WalletError> {
    match public_key_of(key) {
        Some(public) => Ok(public),
        None => Err(WalletError::KeyDerivationFailed),
    }
}

/// Deriving along two paths in turn is deriving along the joined path.
pub proof fn lemma_derive_path_concat(root: ExtendedKey, first: Seq<PathStep>, rest: Seq<PathStep>)
    ensures
        derive_path_spec(root, first + rest) == match derive_path_spec(root, first) {
            Ok(key) => derive_path_spec(key, rest),
            Err(e) => Err(e),
        },
    decreases rest.len(),
{
    if rest.len() > 0 {
        lemma_derive_path_concat(root, first, rest.drop_last());
        assert((first + rest).drop_last() =~= first + rest.drop_last());
    }
}

/// Deriving along one step is deriving the child.
pub proof fn lemma_derive_path_single(root: ExtendedKey, step: PathStep)
    ensures
        derive_path_spec(root, seq![step]) == derive_child_spec(root, step.index, step.hardened),
{
    let steps = seq![step];
    assert(derive_path_spec(root, steps.drop_last()) == Ok::<ExtendedKey, WalletError>(root));
}

/// The master key of a seed.
pub fn root_key(seed: &Seed) -> (r: Result<ExtendedKey, WalletError>)
    ensures
        r == root_key_spec(seed@),
        r matches Ok(key) ==> key.depth == 0 && key.child_number == 0,
{
    match master_of(seed.as_bytes()) {
        Some(key) => Ok(key),
        None => Err(WalletError::KeyDerivationFailed),
    }
}

/// One step down from a key. An index of 2^31 or more gives
/// `IndexOutOfRange`; a failed derivation gives `KeyDerivationFailed` and is
/// never tried again with another index.
pub fn derive_child(parent: &ExtendedKey, index: u32, hardened: bool) -> (r: Result<
    ExtendedKey,
    WalletError,
>)
    ensures
        r == derive_child_spec(*parent, index, hardened),
        r matches Ok(child) ==> child.depth == parent.depth + 1 && child.child_number == (
        PathStep { index, hardened }).child_number(),
{
    let step = PathStep { index, hardened };
    match step.number() {
        None => Err(WalletError::IndexOutOfRange),
        Some(number) => match child_of(parent, number) {
            Some(child) => Ok(child),
            None => Err(WalletError::KeyDerivationFailed),
        },
    }
}

/// The key at the end of a path below a key: [`derive_child`] for each step
/// in order. The result depends on the two arguments alone.
pub fn derive_path(root: &ExtendedKey, path: &DerivationPath) -> (r: Result<
    ExtendedKey,
    WalletError,
>)
    ensures
        r == derive_path_spec(*root, path@),
        r matches Ok(key) ==> key.depth == root.depth + path@.len(),
{
    let mut key = *root;
    let mut i: usize = 0;
    while i < path.steps.len()
        invariant
            i <= path.steps.len(),
            derive_path_spec(*root, path@.take(i as int)) == Ok::<ExtendedKey, WalletError>(key),
            key.depth == root.depth + i,
        decreases path.steps.len() - i,
    {
        let step = path.steps[i];
        proof {
            assert(path@.take(i + 1).drop_last() =~= path@.take(i as int));
        }
        match derive_child(&key, step.index, step.hardened) {
            Ok(child) => {
                key = child;
            },
            Err(e) => {
                proof {
                    lemma_derive_path_fails_later(*root, path@, i + 1);
                }
                return Err(e);
            },
        }
        i += 1;
    }
    proof {
        assert(path@.take(i as int) =~= path@);
    }
    Ok(key)
}

/// The public key that belongs to a private key.
pub fn public_key(key: &ExtendedKey) -> (r: Result<PublicKey, WalletError>)
    ensures
        r == public_key_spec(*key),
{
    match public_of(key) {
        Some(public) => Ok(public),
        None => Err(WalletError::KeyDerivationFailed),
    }
}

/// Once a step fails, the whole path fails with the same error.
pub proof fn lemma_derive_path_fails_later(root: ExtendedKey, steps: Seq<PathStep>, bad: int)
    requires
        0 <= bad <= steps.len(),
        derive_path_spec(root, steps.take(bad)) is Err,
    ensures
        derive_path_spec(root, steps) == derive_path_spec(root, steps.take(bad)),
    decreases steps.len() - bad,
{
    if bad == steps.len() {
        assert(steps.take(bad) =~= steps);
    } else {
        assert(steps.take(bad + 1).drop_last() =~= steps.take(bad));
        lemma_derive_path_fails_later(root, steps, bad + 1);
    }
}

} // verus!
