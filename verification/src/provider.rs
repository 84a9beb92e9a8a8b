//! The chain-data provider: where to ask, and how to read what it answers
//! about the newest block. The requests themselves are the caller's.

use vstd::prelude::*;

verus! {

/// Why the newest block gave no address to probe.
#[derive(Clone, Copy, Debug, PartialEq, Eq, Structural)]
pub enum ProviderFault {
    /// The block lists no transactions.
    NoTransactions,
    /// The first transaction has no outputs.
    NoOutputs,
    /// The first output pays to no address.
    NoAddress,
}

impl ProviderFault {
    /// The text of [`ProviderFault::message`].
    pub open spec fn message_text(self) -> Seq<char> {
        match self {
            ProviderFault::NoTransactions => "No transactions in the latest block."@,
            ProviderFault::NoOutputs => "Transaction has no outputs."@,
            ProviderFault::NoAddress => "First output has no address."@,
        }
    }

    /// A one-line description.
    pub fn message(&self) -> (r: String)
        ensures
            r@ == self.message_text(),
    {
        match self {
            ProviderFault::NoTransactions => String::from_str(
                "No transactions in the latest block.",
            ),
            ProviderFault::NoOutputs => String::from_str("Transaction has no outputs."),
            ProviderFault::NoAddress => String::from_str("First output has no address."),
        }
    }
}

/// The address that is probed where the newest block gives none.
pub open spec fn default_probe_text() -> Seq<char> {
    "bc1qq5552m27lql80chjze0d8pty0r4dfezeucymkd"@
}

/// Where the hash of the newest block is asked for.
pub fn tip_hash_url() -> (r: String)
    ensures
        r@ == "https://mempool.space/api/blocks/tip/hash"@,
{
    String::from_str("https://mempool.space/api/blocks/tip/hash")
}

/// Where the transaction ids of a block are asked for.
pub fn block_txids_url(block_hash: &str) -> (r: String)
    ensures
        r@ == "https://mempool.space/api/block/"@ + block_hash@ + "/txids"@,
{
    let mut url = String::from_str("https://mempool.space/api/block/");
    url.append(block_hash);
    url.append("/txids");
    url
}

/// Where a transaction is asked for.
pub fn transaction_url(txid: &str) -> (r: String)
    ensures
        r@ == "https://mempool.space/api/tx/"@ + txid@,
{
    let mut url = String::from_str("https://mempool.space/api/tx/");
    url.append(txid);
    url
}

/// Where the totals of an address are asked for.
pub fn address_url(address: &str) -> (r: String)
    ensures
        r@ == "https://mempool.space/api/address/"@ + address@,
{
    let mut url = String::from_str("https://mempool.space/api/address/");
    url.append(address);
    url
}

/// The first transaction id of a block.
pub fn first_transaction(txids: &Vec<String>) -> (r: Result<String, ProviderFault>)
    ensures
        txids@.len() == 0 ==> r == Err::<String, ProviderFault>(ProviderFault::NoTransactions),
        txids@.len() > 0 ==> r is Ok && r.unwrap()@ == txids@[0]@,
{
    if txids.len() == 0 {
        Err(ProviderFault::NoTransactions)
    } else {
        Ok(txids[0].clone())
    }
}

/// The address of the first output of a transaction, given the address of
/// each output where it has one.
pub fn first_output_address(outputs: &Vec<Option<String>>) -> (r: Result<String, ProviderFault>)
    ensures
        outputs@.len() == 0 ==> r == Err::<String, ProviderFault>(ProviderFault::NoOutputs),
        outputs@.len() > 0 && outputs@[0] is None ==> r == Err::<String, ProviderFault>(
            ProviderFault::NoAddress,
        ),
        outputs@.len() > 0 && outputs@[0] is Some ==> r is Ok && r.unwrap()@
            == outputs@[0].unwrap()@,
{
    if outputs.len() == 0 {
        Err(ProviderFault::NoOutputs)
    } else {
        match &outputs[0] {
            Some(address) => Ok(address.clone()),
            None => Err(ProviderFault::NoAddress),
        }
    }
}

/// The address to probe before a scan: the one that the newest block gave,
/// or a fixed address where it gave none.
pub fn probe_address(newest: Option<String>) -> (r: String)
    ensures
        r@ == match newest {
            Some(address) => address@,
            None => default_probe_text(),
        },
{
    match newest {
        Some(address) => address,
        None => String::from_str("bc1qq5552m27lql80chjze0d8pty0r4dfezeucymkd"),
    }
}

} // verus!
