//! The errors of this library.

use vstd::prelude::*;

verus! {

/// Why a phrase is not a BIP39 mnemonic.
#[derive(Clone, Copy, Debug, PartialEq, Eq, Structural)]
pub enum MnemonicFault {
    /// The number of words is not 12, 15, 18, 21 or 24.
    WordCount,
    /// A word is not in the word list.
    UnknownWord,
    /// The checksum bits do not match the entropy.
    Checksum,
    /// Any other defect reported by the BIP39 decoder.
    Other,
}

/// What can go wrong in this library.
#[derive(Clone, Copy, Debug, PartialEq, Eq, Structural)]
pub enum WalletError {
    /// The phrase is not a valid mnemonic.
    InvalidMnemonic(MnemonicFault),
    /// The text is not a derivation path, or has the wrong number of levels.
    MalformedPath,
    /// A key could not be derived or encoded.
    KeyDerivationFailed,
    /// The path's purpose or coin type does not go with the network.
    UnsupportedCombination,
    /// The address cannot be decoded for the network.
    InvalidAddress,
    /// A child index does not fit the non-hardened range.
    IndexOutOfRange,
    /// The balance provider failed or answered nonsense.
    ProviderError,
}

impl WalletError {
    /// Whether a caller may try again: only a provider failure is transient.
    pub open spec fn retryable(self) -> bool {
        self == WalletError::ProviderError
    }

    /// Whether a caller may try again: only a provider failure is transient.
    pub fn is_retryable(&self) -> (r: bool)
        ensures
            r == self.retryable(),
    {
        match self {
            WalletError::ProviderError => true,
            _ => false,
        }
    }

    /// The text of [`WalletError::message`].
    pub open spec fn message_text(self) -> Seq<char> {
        match self {
            WalletError::InvalidMnemonic(MnemonicFault::WordCount) =>
                "invalid mnemonic: word count must be 12, 15, 18, 21 or 24"@,
            WalletError::InvalidMnemonic(MnemonicFault::UnknownWord) =>
                "invalid mnemonic: unknown word"@,
            WalletError::InvalidMnemonic(MnemonicFault::Checksum) =>
                "invalid mnemonic: bad checksum"@,
            WalletError::InvalidMnemonic(MnemonicFault::Other) => "invalid mnemonic"@,
            WalletError::MalformedPath => "malformed derivation path"@,
            WalletError::KeyDerivationFailed => "key derivation failed"@,
            WalletError::UnsupportedCombination =>
                "unsupported combination of path and network"@,
            WalletError::InvalidAddress => "invalid address for the network"@,
            WalletError::IndexOutOfRange => "address index out of range"@,
            WalletError::ProviderError => "balance provider error"@,
        }
    }

    /// A one-line description for logs and terminals.
    pub fn message(&self) -> (r: String)
        ensures
            r@ == self.message_text(),
    {
        match self {
            WalletError::InvalidMnemonic(MnemonicFault::WordCount) => String::from_str(
                "invalid mnemonic: word count must be 12, 15, 18, 21 or 24",
            ),
            WalletError::InvalidMnemonic(MnemonicFault::UnknownWord) => String::from_str(
                "invalid mnemonic: unknown word",
            ),
            WalletError::InvalidMnemonic(MnemonicFault::Checksum) => String::from_str(
                "invalid mnemonic: bad checksum",
            ),
            WalletError::InvalidMnemonic(MnemonicFault::Other) => String::from_str(
                "invalid mnemonic",
            ),
            WalletError::MalformedPath => String::from_str("malformed derivation path"),
            WalletError::KeyDerivationFailed => String::from_str("key derivation failed"),
            WalletError::UnsupportedCombination => String::from_str(
                "unsupported combination of path and network",
            ),
            WalletError::InvalidAddress => String::from_str("invalid address for the network"),
            WalletError::IndexOutOfRange => String::from_str("address index out of range"),
            WalletError::ProviderError => String::from_str("balance provider error"),
        }
    }
}

} // verus!
