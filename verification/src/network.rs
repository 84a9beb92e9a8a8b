//! Networks and script types, and the path conventions that go with them.

use vstd::prelude::*;

verus! {

/// The chain an address is meant for.
#[derive(Clone, Copy, Debug, PartialEq, Eq, Structural)]
pub enum Network {
    Mainnet,
    Testnet,
    Signet,
    Regtest,
}

/// The four single-key output formats.
#[derive(Clone, Copy, Debug, PartialEq, Eq, Structural)]
pub enum ScriptType {
    /// Pay to public key hash (BIP44).
    Legacy,
    /// Pay to witness public key hash, wrapped in a script hash (BIP49).
    NestedSegwit,
    /// Pay to witness public key hash (BIP84).
    NativeSegwit,
    /// Pay to taproot, key path only (BIP86).
    Taproot,
}

impl Network {
    /// The coin type that BIP44 assigns: 0 on the main chain, 1 on every test chain.
    pub open spec fn coin(self) -> u32 {
        match self {
            Network::Mainnet => 0,
            _ => 1,
        }
    }

    /// A network of the other kind: the test chain for the main chain, the
    /// main chain for every test chain.
    pub open spec fn opposite(self) -> Network {
        match self {
            Network::Mainnet => Network::Testnet,
            _ => Network::Mainnet,
        }
    }

    /// A network of the other kind.
    pub fn counterpart(&self) -> (r: Network)
        ensures
            r == self.opposite(),
    {
        match self {
            Network::Mainnet => Network::Testnet,
            _ => Network::Mainnet,
        }
    }

    /// The coin type that BIP44 assigns: 0 on the main chain, 1 on every test chain.
    pub fn coin_type(&self) -> (r: u32)
        ensures
            r == self.coin(),
    {
        match self {
            Network::Mainnet => 0,
            _ => 1,
        }
    }
}

impl ScriptType {
    /// The purpose field that selects this script type.
    pub open spec fn purpose_number(self) -> u32 {
        match self {
            ScriptType::Legacy => 44,
            ScriptType::NestedSegwit => 49,
            ScriptType::NativeSegwit => 84,
            ScriptType::Taproot => 86,
        }
    }

    /// The script type that a purpose field selects, if any.
    pub open spec fn of_purpose(purpose: u32) -> Option<ScriptType> {
        if purpose == 44 {
            Some(ScriptType::Legacy)
        } else if purpose == 49 {
            Some(ScriptType::NestedSegwit)
        } else if purpose == 84 {
            Some(ScriptType::NativeSegwit)
        } else if purpose == 86 {
            Some(ScriptType::Taproot)
        } else {
            None
        }
    }

    /// The four script types in the order in which a scan visits them.
    pub open spec fn all() -> Seq<ScriptType> {
        seq![
            ScriptType::Legacy,
            ScriptType::NestedSegwit,
            ScriptType::NativeSegwit,
            ScriptType::Taproot,
        ]
    }

    /// The purpose field that selects this script type.
    pub fn purpose(&self) -> (r: u32)
        ensures
            r == self.purpose_number(),
            ScriptType::of_purpose(r) == Some(*self),
    {
        match self {
            ScriptType::Legacy => 44,
            ScriptType::NestedSegwit => 49,
            ScriptType::NativeSegwit => 84,
            ScriptType::Taproot => 86,
        }
    }

    /// The script type that a purpose field selects, if any.
    pub fn from_purpose(purpose: u32) -> (r: Option<ScriptType>)
        ensures
            r == ScriptType::of_purpose(purpose),
    {
        if purpose == 44 {
            Some(ScriptType::Legacy)
        } else if purpose == 49 {
            Some(ScriptType::NestedSegwit)
        } else if purpose == 84 {
            Some(ScriptType::NativeSegwit)
        } else if purpose == 86 {
            Some(ScriptType::Taproot)
        } else {
            None
        }
    }

    /// The script type at a position of [`ScriptType::all`], if there is one.
    pub fn nth(i: usize) -> (r: Option<ScriptType>)
        ensures
            i < 4 ==> r == Some(ScriptType::all()[i as int]),
            i >= 4 ==> r is None,
    {
        if i == 0 {
            Some(ScriptType::Legacy)
        } else if i == 1 {
            Some(ScriptType::NestedSegwit)
        } else if i == 2 {
            Some(ScriptType::NativeSegwit)
        } else if i == 3 {
            Some(ScriptType::Taproot)
        } else {
            None
        }
    }
}

/// A purpose field selects the script type whose purpose it is, and no other.
pub proof fn lemma_purpose_selects(script_type: ScriptType, purpose: u32)
    ensures
        ScriptType::of_purpose(purpose) == Some(script_type) <==> purpose
            == script_type.purpose_number(),
{
}

} // verus!
