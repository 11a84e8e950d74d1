//! From a transaction to its category, and from a block to its classified transactions.

use vstd::prelude::*;
use crate::ascii::ascii_lowercase;
use crate::category::TxCategory;
use crate::heuristics::{
    lemma_filed_is_known, lemma_known_ignoring_case, Heuristics, RegistryView,
};
use crate::quantity::{hex_u128, hex_u64, parse_hex_u128, parse_hex_u64};
use crate::transaction::{text_of, Block, BlockEthereum, Tx, TxEthereum};

verus! {

/// The category of a transaction from `from` to `to`. The first rule that
/// applies decides:
/// without a recipient it is unknown; a recipient that, in lower case, is a
/// known exchange endpoint makes it foreign; one that is a known bridge endpoint
/// makes it a bridge transaction; where both ends are known exchange endpoints
/// it is domestic; anything else is foreign.
pub open spec fn classification(
    registry: RegistryView,
    from: Seq<char>,
    to: Option<Seq<char>>,
) -> TxCategory {
    match to {
        None => TxCategory::Unknown,
        Some(recipient) => {
            let to = ascii_lowercase(recipient);
            if registry.known_cex(to) {
                TxCategory::Foreign
            } else if registry.known_bridge(to) {
                TxCategory::Bridge
            } else if registry.known_domestic(from, to) {
                TxCategory::Domestic
            } else {
                TxCategory::Foreign
            }
        },
    }
}

/// A transaction with its category, its value as a number, and the number and
/// time of its block.
#[derive(Debug, PartialEq, Eq)]
pub struct TxClassified {
    pub hash: String,
    pub from: String,
    pub to: Option<String>,
    pub value: u128,
    pub category: TxCategory,
    pub block_number: u64,
    pub timestamp: u64,
}

/// The classified transaction that the given parts make, if the value and the
/// timestamp both read as hexadecimal quantities.
pub open spec fn classified(
    hash: String,
    from: String,
    to: Option<String>,
    value: Seq<char>,
    category: TxCategory,
    block_number: u64,
    timestamp: Seq<char>,
) -> Option<TxClassified> {
    match (hex_u128(value), hex_u64(timestamp)) {
        (Some(value), Some(timestamp)) => Some(
            TxClassified { hash, from, to, value, category, block_number, timestamp },
        ),
        _ => None,
    }
}

/// The classified form of `tx` in a block with the given number and timestamp,
/// its category being the one that `registry` gives it.
pub open spec fn classified_tx(
    registry: RegistryView,
    block_number: u64,
    timestamp: Seq<char>,
    tx: TxEthereum,
) -> Option<TxClassified> {
    classified(
        tx.hash,
        tx.from,
        tx.to,
        tx.value@,
        classification(registry, tx.from@, text_of(tx.to)),
        block_number,
        timestamp,
    )
}

/// The classified forms of `txs`, in their order; a transaction that has none
/// is left out.
pub open spec fn classified_txs(
    registry: RegistryView,
    block_number: u64,
    timestamp: Seq<char>,
    txs: Seq<TxEthereum>,
) -> Seq<TxClassified>
    decreases txs.len(),
{
    if txs.len() == 0 {
        Seq::empty()
    } else {
        let before = classified_txs(registry, block_number, timestamp, txs.drop_last());
        match classified_tx(registry, block_number, timestamp, txs.last()) {
            Some(tx) => before.push(tx),
            None => before,
        }
    }
}

/// The number of a block, zero where the text does not read as one.
pub open spec fn block_number_of(number: Seq<char>) -> u64 {
    match hex_u64(number) {
        Some(n) => n,
        None => 0,
    }
}

fn classify_parts(from: &str, to: &Option<String>, heuristics: &Heuristics) -> (category:
    TxCategory)
    ensures
        category == classification(heuristics@, from@, text_of(*to)),
{
    match to {
        None => TxCategory::Unknown,
        Some(recipient) => {
            let to = recipient.as_str().to_ascii_lowercase();
            if heuristics.is_known_cex(to.as_str()) {
                TxCategory::Foreign
            } else if heuristics.is_known_bridge(to.as_str()) {
                TxCategory::Bridge
            } else if heuristics.is_known_domestic(from, to.as_str()) {
                TxCategory::Domestic
            } else {
                TxCategory::Foreign
            }
        },
    }
}

fn classified_from_parts(
    hash: String,
    from: String,
    to: Option<String>,
    value: &str,
    category: TxCategory,
    block_number: u64,
    timestamp: &str,
) -> (tx: Option<TxClassified>)
    ensures
        tx == classified(hash, from, to, value@, category, block_number, timestamp@),
{
    let value = match parse_hex_u128(value) {
        Some(v) => v,
        None => {
            return None;
        },
    };
    let timestamp = match parse_hex_u64(timestamp) {
        Some(t) => t,
        None => {
            return None;
        },
    };
    Some(TxClassified { hash, from, to, value, category, block_number, timestamp })
}

impl TxEthereum {
    /// The category of this transaction as `heuristics` sees it.
    pub fn categorize(&self, heuristics: &Heuristics) -> (category: TxCategory)
        ensures
            category == classification(heuristics@, self.from@, text_of(self.to)),
    {
        classify_parts(self.from.as_str(), &self.to, heuristics)
    }
}

/// The category of `tx` as `heuristics` sees it.
pub fn classify_tx(tx: &Tx, heuristics: &Heuristics) -> (category: TxCategory)
    ensures
        category == classification(heuristics@, tx.from@, text_of(tx.to)),
{
    classify_parts(tx.from.as_str(), &tx.to, heuristics)
}

impl TxClassified {
    /// The classified form of `tx`, where its value and the timestamp of its
    /// block both read as hexadecimal quantities.
    pub fn from_tx(tx: TxEthereum, category: TxCategory, block_number: u64, timestamp: &str) -> (out:
        Option<Self>)
        ensures
            out == classified(
                tx.hash,
                tx.from,
                tx.to,
                tx.value@,
                category,
                block_number,
                timestamp@,
            ),
    {
        let TxEthereum { hash, from, to, input: _, value } = tx;
        classified_from_parts(hash, from, to, value.as_str(), category, block_number, timestamp)
    }
}

impl Tx {
    /// The classified form of this transaction, where its value and the
    /// timestamp of its block both read as hexadecimal quantities.
    pub fn classify(self, category: TxCategory, block_number: u64, timestamp: &str) -> (out: Option<
        TxClassified,
    >)
        ensures
            out == classified(
                self.hash,
                self.from,
                self.to,
                self.value@,
                category,
                block_number,
                timestamp@,
            ),
    {
        let Tx { hash, from, to, input: _, value } = self;
        classified_from_parts(hash, from, to, value.as_str(), category, block_number, timestamp)
    }
}

/// The transactions of `block`, each with its category, its value as a number
/// and the number and time of the block. A transaction whose value does not read
/// as a hexadecimal quantity is left out, and so are all of them where the
/// timestamp of the block does not; a block number that does not read counts as zero.
pub fn classify_block(block: BlockEthereum, heuristics: &Heuristics) -> (out: Vec<TxClassified>)
    ensures
        out@ == classified_txs(
            heuristics@,
            block_number_of(block.number@),
            block.timestamp@,
            block.transactions@,
        ),
{
    let block_number = match parse_hex_u64(block.number.as_str()) {
        Some(n) => n,
        None => 0,
    };
    let BlockEthereum { number: _, timestamp, transactions } = block;
    let ghost txs = transactions@;
    let mut out: Vec<TxClassified> = Vec::new();
    for tx in it: transactions
        invariant
            it.seq() == txs,
            out@ == classified_txs(heuristics@, block_number, timestamp@, txs.take(it.index())),
    {
        proof {
            assert(txs.take(it.index() + 1).drop_last() =~= txs.take(it.index()));
        }
        let category = tx.categorize(heuristics);
        match TxClassified::from_tx(tx, category, block_number, timestamp.as_str()) {
            Some(classified) => out.push(classified),
            None => {},
        }
    }
    proof {
        assert(txs.take(txs.len() as int) =~= txs);
    }
    out
}

impl Block {
    /// The transactions of this block, classified as [`classify_block`] does it.
    pub fn classify(self, heuristics: &Heuristics) -> (out: Vec<TxClassified>)
        ensures
            out@ == classified_txs(
                heuristics@,
                block_number_of(self.number@),
                self.timestamp@,
                self.transactions@.map_values(|tx: Tx| tx.as_ethereum()),
            ),
    {
        let block_number = match parse_hex_u64(self.number.as_str()) {
            Some(n) => n,
            None => 0,
        };
        let Block { number: _, timestamp, transactions } = self;
        let ghost txs = transactions@.map_values(|tx: Tx| tx.as_ethereum());
        let mut out: Vec<TxClassified> = Vec::new();
        for tx in it: transactions
            invariant
                    it.seq().map_values(|tx: Tx| tx.as_ethereum()) == txs,
                out@ == classified_txs(
                    heuristics@,
                    block_number,
                    timestamp@,
                    txs.take(it.index()),
                ),
        {
            proof {
                assert(txs.take(it.index() + 1).drop_last() =~= txs.take(it.index()));
                assert(txs[it.index()] == tx.as_ethereum());
            }
            let category = classify_tx(&tx, heuristics);
            match tx.classify(category, block_number, timestamp.as_str()) {
                Some(classified) => out.push(classified),
                None => {},
            }
        }
        proof {
            assert(txs.take(txs.len() as int) =~= txs);
        }
        out
    }
}

/// No more transactions come out classified than went in, and each that comes
/// out has the number of the block and the time that its timestamp reads as.
pub proof fn lemma_classified_belong_to_the_block(
    registry: RegistryView,
    block_number: u64,
    timestamp: Seq<char>,
    txs: Seq<TxEthereum>,
)
    ensures
        classified_txs(registry, block_number, timestamp, txs).len() <= txs.len(),
        forall|i: int|
            0 <= i < classified_txs(registry, block_number, timestamp, txs).len() ==> {
                let tx = #[trigger] classified_txs(registry, block_number, timestamp, txs)[i];
                &&& tx.block_number == block_number
                &&& Some(tx.timestamp) == hex_u64(timestamp)
            },
    decreases txs.len(),
{
    if txs.len() > 0 {
        lemma_classified_belong_to_the_block(registry, block_number, timestamp, txs.drop_last());
    }
}

/// Where the timestamp of the block does not read as a hexadecimal quantity,
/// no transaction comes out classified.
pub proof fn lemma_unread_timestamp_drops_all(
    registry: RegistryView,
    block_number: u64,
    timestamp: Seq<char>,
    txs: Seq<TxEthereum>,
)
    requires
        hex_u64(timestamp) is None,
    ensures
        classified_txs(registry, block_number, timestamp, txs) == Seq::<TxClassified>::empty(),
    decreases txs.len(),
{
    if txs.len() > 0 {
        lemma_unread_timestamp_drops_all(registry, block_number, timestamp, txs.drop_last());
    }
}

/// Where the timestamp of the block and the value of each transaction read as
/// hexadecimal quantities, every transaction comes out classified.
pub proof fn lemma_all_read_keeps_all(
    registry: RegistryView,
    block_number: u64,
    timestamp: Seq<char>,
    txs: Seq<TxEthereum>,
)
    requires
        hex_u64(timestamp) is Some,
        forall|i: int| 0 <= i < txs.len() ==> hex_u128(#[trigger] txs[i].value@) is Some,
    ensures
        classified_txs(registry, block_number, timestamp, txs).len() == txs.len(),
    decreases txs.len(),
{
    if txs.len() > 0 {
        let before = txs.drop_last();
        assert forall|i: int| 0 <= i < before.len() implies hex_u128(
            #[trigger] before[i].value@,
        ) is Some by {
            assert(before[i] == txs[i]);
        }
        lemma_all_read_keeps_all(registry, block_number, timestamp, before);
        assert(hex_u128(txs[txs.len() - 1].value@) is Some);
    }
}

/// A transaction without a recipient is unknown, whatever the registry holds.
pub proof fn lemma_no_recipient_is_unknown(registry: RegistryView, from: Seq<char>)
    ensures
        classification(registry, from, None) == TxCategory::Unknown,
{
}

/// A transaction to an address that is filed under any label of exchange
/// endpoints is foreign, whoever sends it.
pub proof fn lemma_cex_recipient_is_foreign(
    registry: RegistryView,
    label: Seq<char>,
    i: int,
    from: Seq<char>,
)
    requires
        registry.cex.contains_key(label),
        0 <= i < registry.cex[label].len(),
    ensures
        classification(registry, from, Some(registry.cex[label][i])) == TxCategory::Foreign,
{
    lemma_filed_is_known(registry.cex, label, i);
}

/// A transaction to an address that is filed under a label of bridge endpoints,
/// and that is not known as an exchange endpoint, is a bridge transaction.
pub proof fn lemma_bridge_recipient_is_bridge(
    registry: RegistryView,
    label: Seq<char>,
    i: int,
    from: Seq<char>,
)
    requires
        registry.bridge.contains_key(label),
        0 <= i < registry.bridge[label].len(),
        !registry.known_cex(registry.bridge[label][i]),
    ensures
        classification(registry, from, Some(registry.bridge[label][i])) == TxCategory::Bridge,
{
    lemma_filed_is_known(registry.bridge, label, i);
    lemma_known_ignoring_case(registry.cex, registry.bridge[label][i]);
}

/// Where both ends are known exchange endpoints the transaction is foreign:
/// the rule for a recipient that is an exchange endpoint comes before the rule
/// for two exchange endpoints.
pub proof fn lemma_cex_both_ends_is_foreign(
    registry: RegistryView,
    from: Seq<char>,
    to: Seq<char>,
)
    requires
        registry.known_cex(from),
        registry.known_cex(to),
    ensures
        classification(registry, from, Some(to)) == TxCategory::Foreign,
{
    lemma_known_ignoring_case(registry.cex, to);
}

/// No transaction is domestic: the rule for it asks of the recipient what an
/// earlier rule has already excluded.
pub proof fn lemma_never_domestic(registry: RegistryView, from: Seq<char>, to: Option<Seq<char>>)
    ensures
        classification(registry, from, to) != TxCategory::Domestic,
{
}

/// A recipient that the registry knows in neither role makes the transaction foreign.
pub proof fn lemma_unmatched_recipient_is_foreign(
    registry: RegistryView,
    from: Seq<char>,
    to: Seq<char>,
)
    requires
        !registry.known_cex(to),
        !registry.known_bridge(to),
    ensures
        classification(registry, from, Some(to)) == TxCategory::Foreign,
{
    lemma_known_ignoring_case(registry.cex, to);
    lemma_known_ignoring_case(registry.bridge, to);
}

} // verus!
