use mnemonic_scan::error::{MnemonicFault, WalletError};
use mnemonic_scan::provider::{
    address_url, block_txids_url, first_output_address, first_transaction, probe_address, tip_hash_url,
    transaction_url, ProviderFault,
};

#[test]
fn the_endpoints() {
    assert_eq!(tip_hash_url(), "https://mempool.space/api/blocks/tip/hash");
    assert_eq!(block_txids_url("00ab"), "https://mempool.space/api/block/00ab/txids");
    assert_eq!(transaction_url("ff01"), "https://mempool.space/api/tx/ff01");
    assert_eq!(
        address_url("bc1qcr8te4kr609gcawutmrza0j4xv80jy8z306fyu"),
        "https://mempool.space/api/address/bc1qcr8te4kr609gcawutmrza0j4xv80jy8z306fyu"
    );
    assert_eq!(address_url(""), "https://mempool.space/api/address/");
}

#[test]
fn the_first_transaction_of_a_block() {
    assert_eq!(first_transaction(&vec![]), Err(ProviderFault::NoTransactions));
    assert_eq!(first_transaction(&vec!["a".to_string()]), Ok("a".to_string()));
    assert_eq!(first_transaction(&vec!["b".to_string(), "a".to_string()]), Ok("b".to_string()));
}

#[test]
fn the_first_output_of_a_transaction() {
    assert_eq!(first_output_address(&vec![]), Err(ProviderFault::NoOutputs));
    assert_eq!(first_output_address(&vec![None]), Err(ProviderFault::NoAddress));
    assert_eq!(first_output_address(&vec![None, Some("x".to_string())]), Err(ProviderFault::NoAddress));
    assert_eq!(first_output_address(&vec![Some("x".to_string()), None]), Ok("x".to_string()));
}

#[test]
fn the_address_to_probe() {
    assert_eq!(probe_address(Some("x".to_string())), "x");
    assert_eq!(probe_address(None), "bc1qq5552m27lql80chjze0d8pty0r4dfezeucymkd");
}

#[test]
fn faults_have_messages() {
    assert_eq!(ProviderFault::NoTransactions.message(), "No transactions in the latest block.");
    assert_eq!(ProviderFault::NoOutputs.message(), "Transaction has no outputs.");
    assert_eq!(ProviderFault::NoAddress.message(), "First output has no address.");
    let all = [
        WalletError::InvalidMnemonic(MnemonicFault::WordCount),
        WalletError::InvalidMnemonic(MnemonicFault::UnknownWord),
        WalletError::InvalidMnemonic(MnemonicFault::Checksum),
        WalletError::InvalidMnemonic(MnemonicFault::Other),
        WalletError::MalformedPath,
        WalletError::KeyDerivationFailed,
        WalletError::UnsupportedCombination,
        WalletError::InvalidAddress,
        WalletError::IndexOutOfRange,
        WalletError::ProviderError,
    ];
    for (i, e) in all.iter().enumerate() {
        assert!(!e.message().is_empty());
        assert_eq!(e.is_retryable(), *e == WalletError::ProviderError);
        for other in &all[i + 1..] {
            assert_ne!(e.message(), other.message());
        }
    }
    assert_eq!(WalletError::MalformedPath.message(), "malformed derivation path");
}
