//! Transactions and blocks as a ledger node hands them over.

use vstd::prelude::*;

verus! {

/// A transaction as the node gives it: every field is text, the value is a
/// hexadecimal quantity, and a transaction that creates a contract has no recipient.
#[derive(Debug)]
pub struct TxEthereum {
    pub hash: String,
    pub from: String,
    pub to: Option<String>,
    pub input: String,
    pub value: String,
}

/// A block as the node gives it; number and timestamp are hexadecimal quantities.
#[derive(Debug)]
pub struct BlockEthereum {
    pub number: String,
    pub timestamp: String,
    pub transactions: Vec<TxEthereum>,
}

/// A transaction as the scanner reads it.
#[derive(Debug)]
pub struct Tx {
    pub hash: String,
    pub from: String,
    pub to: Option<String>,
    pub input: String,
    pub value: String,
}

/// A block as the scanner reads it.
#[derive(Debug)]
pub struct Block {
    pub number: String,
    pub timestamp: String,
    pub transactions: Vec<Tx>,
}

impl Tx {
    /// The same transaction in the form in which the node gives it.
    pub open spec fn as_ethereum(self) -> TxEthereum {
        TxEthereum {
            hash: self.hash,
            from: self.from,
            to: self.to,
            input: self.input,
            value: self.value,
        }
    }
}

/// The text of a string that may be absent.
pub open spec fn text_of(s: Option<String>) -> Option<Seq<char>> {
    match s {
        Some(s) => Some(s@),
        None => None,
    }
}

} // verus!
