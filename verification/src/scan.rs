//! A pass over transactions in which the registry learns from what it classifies.

use vstd::prelude::*;
use crate::ascii::{ascii_lowercase, lemma_lowercase_idempotent};
use crate::category::TxCategory;
use crate::classification::{classification, classify_tx};
use crate::heuristics::{lemma_known_after_filing, Heuristics, RegistryView, LEARNED_LABEL};
use crate::transaction::{text_of, Tx};

verus! {

/// What a pass saw of one transaction with a recipient: the sender, the
/// recipient in lower case, and the category.
#[derive(Debug, PartialEq, Eq)]
pub struct Sighting {
    pub from: String,
    pub to: String,
    pub category: TxCategory,
}

/// A sighting as plain values.
pub ghost struct SightingView {
    pub from: Seq<char>,
    pub to: Seq<char>,
    pub category: TxCategory,
}

impl View for Sighting {
    type V = SightingView;

    open spec fn view(&self) -> SightingView {
        SightingView { from: self.from@, to: self.to@, category: self.category }
    }
}

/// The sightings of a list, each as plain values.
pub open spec fn sighting_views(sightings: Seq<Sighting>) -> Seq<SightingView> {
    sightings.map_values(|s: Sighting| s@)
}

/// What a pass sees of `tx` with the registry as it stands; nothing where the
/// transaction has no recipient.
pub open spec fn sighting_of(registry: RegistryView, tx: Tx) -> Option<SightingView> {
    match text_of(tx.to) {
        None => None,
        Some(to) => Some(
            SightingView {
                from: tx.from@,
                to: ascii_lowercase(to),
                category: classification(registry, tx.from@, Some(to)),
            },
        ),
    }
}

/// The registry after it has seen `tx`: it has learned the recipient, in lower
/// case, under the category that it gave the transaction.
pub open spec fn registry_after_tx(registry: RegistryView, tx: Tx) -> RegistryView {
    match sighting_of(registry, tx) {
        None => registry,
        Some(seen) => registry.learned(seen.category, seen.to),
    }
}

/// The registry after it has seen `txs` one after the other.
pub open spec fn registry_after(registry: RegistryView, txs: Seq<Tx>) -> RegistryView
    decreases txs.len(),
{
    if txs.len() == 0 {
        registry
    } else {
        registry_after_tx(registry_after(registry, txs.drop_last()), txs.last())
    }
}

/// What a pass over `txs` sees, each transaction with the registry as the
/// transactions before it have left it.
pub open spec fn sightings_of(registry: RegistryView, txs: Seq<Tx>) -> Seq<SightingView>
    decreases txs.len(),
{
    if txs.len() == 0 {
        Seq::empty()
    } else {
        let before = sightings_of(registry, txs.drop_last());
        match sighting_of(registry_after(registry, txs.drop_last()), txs.last()) {
            Some(seen) => before.push(seen),
            None => before,
        }
    }
}

/// Classifies `tx` and lets the registry learn its recipient, in lower case,
/// under the category found. A transaction without a recipient is passed over.
pub fn scan_tx(tx: &Tx, heuristics: &mut Heuristics) -> (seen: Option<Sighting>)
    ensures
        final(heuristics)@ == registry_after_tx(old(heuristics)@, *tx),
        match seen {
            Some(s) => Some(s@) == sighting_of(old(heuristics)@, *tx),
            None => sighting_of(old(heuristics)@, *tx) is None,
        },
{
    match &tx.to {
        None => None,
        Some(recipient) => {
            let to = recipient.as_str().to_ascii_lowercase();
            let category = classify_tx(tx, heuristics);
            heuristics.push_by_tx_category(&category, to.as_str());
            Some(Sighting { from: tx.from.clone(), to, category })
        },
    }
}

/// Classifies `txs` one after the other, the registry learning from each
/// before the next is looked at.
pub fn scan_txs(txs: &Vec<Tx>, heuristics: &mut Heuristics) -> (seen: Vec<Sighting>)
    ensures
        final(heuristics)@ == registry_after(old(heuristics)@, txs@),
        sighting_views(seen@) == sightings_of(old(heuristics)@, txs@),
{
    let mut seen: Vec<Sighting> = Vec::new();
    let mut i: usize = 0;
    assert(sighting_views(seen@) =~= Seq::<SightingView>::empty());
    while i < txs.len()
        invariant
            i <= txs.len(),
            heuristics@ == registry_after(old(heuristics)@, txs@.take(i as int)),
            sighting_views(seen@) == sightings_of(old(heuristics)@, txs@.take(i as int)),
        decreases txs.len() - i,
    {
        proof {
            assert(txs@.take(i + 1).drop_last() =~= txs@.take(i as int));
        }
        let ghost before = seen@;
        match scan_tx(&txs[i], heuristics) {
            Some(s) => {
                seen.push(s);
                assert(sighting_views(seen@) =~= sighting_views(before).push(s@));
            },
            None => {},
        }
        i = i + 1;
    }
    proof {
        assert(txs@.take(txs.len() as int) =~= txs@);
    }
    seen
}

/// What the registry has learned from a transaction it confirms: the same
/// recipient gets the same category afterwards, whoever sends to it.
pub proof fn lemma_learning_confirms(registry: RegistryView, tx: Tx, sender: Seq<char>)
    requires
        tx.to is Some,
    ensures
        classification(registry_after_tx(registry, tx), sender, text_of(tx.to)) == classification(
            registry,
            tx.from@,
            text_of(tx.to),
        ),
{
    let to = text_of(tx.to).unwrap();
    let lower = ascii_lowercase(to);
    let label = LEARNED_LABEL@;
    lemma_lowercase_idempotent(to);
    lemma_known_after_filing(registry.cex, label, lower, lower);
    lemma_known_after_filing(registry.bridge, label, lower, lower);
}

} // verus!
