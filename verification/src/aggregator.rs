//! From the classified transactions of a block to its summary.

use vstd::prelude::*;
use crate::category::{
    amount_of, amounts_with_view, capped, capped_sum, lemma_amounts_with_view,
    lemma_view_of_amounts, CategoryAmounts, TxCategory, Wei,
};
use crate::classification::TxClassified;
use crate::flow_summary::FlowSummary;

verus! {

/// Whether a transaction of `txs` falls under `category`.
pub open spec fn observed(txs: Seq<TxClassified>, category: TxCategory) -> bool {
    exists|i: int| 0 <= i < txs.len() && (#[trigger] txs[i]).category == category
}

/// The values of the transactions of `txs` that fall under `category`, added
/// up without a cap.
pub open spec fn category_sum(txs: Seq<TxClassified>, category: TxCategory) -> nat
    decreases txs.len(),
{
    if txs.len() == 0 {
        0
    } else {
        category_sum(txs.drop_last(), category) + (if txs.last().category == category {
            txs.last().value as nat
        } else {
            0
        })
    }
}

/// The total of each category that occurs among `txs`: the sum of the values
/// under it, capped at the largest amount that can be represented.
pub open spec fn block_totals(txs: Seq<TxClassified>) -> Map<TxCategory, Wei> {
    Map::new(
        |c: TxCategory| observed(txs, c),
        |c: TxCategory| capped(category_sum(txs, c) as int),
    )
}

/// The summary of a block with the classified transactions `txs`: number and
/// time are those of the first transaction, and zero for a block without
/// transactions.
pub open spec fn summary_of(txs: Seq<TxClassified>) -> FlowSummary {
    FlowSummary {
        block_number: if txs.len() > 0 {
            txs[0].block_number
        } else {
            0
        },
        timestamp: if txs.len() > 0 {
            txs[0].timestamp
        } else {
            0
        },
        category_totals: amounts_with_view(block_totals(txs)),
        tx_count: txs.len() as usize,
    }
}

/// A category under which no transaction falls has the sum zero.
proof fn lemma_sum_of_unobserved(txs: Seq<TxClassified>, category: TxCategory)
    requires
        !observed(txs, category),
    ensures
        category_sum(txs, category) == 0,
    decreases txs.len(),
{
    if txs.len() > 0 {
        let before = txs.drop_last();
        assert(txs[txs.len() - 1].category != category);
        assert forall|i: int| 0 <= i < before.len() implies (#[trigger] before[i]).category
            != category by {
            assert(txs[i].category != category);
        }
        lemma_sum_of_unobserved(before, category);
    }
}

/// The totals come about one transaction after the other: each adds its value
/// to the running total of its category, and the sum is capped.
pub proof fn lemma_totals_step(txs: Seq<TxClassified>)
    requires
        txs.len() > 0,
    ensures
        block_totals(txs) == block_totals(txs.drop_last()).insert(
            txs.last().category,
            capped_sum(
                amount_of(block_totals(txs.drop_last()), txs.last().category),
                txs.last().value,
            ),
        ),
{
    let before = txs.drop_last();
    let tx = txs.last();
    let expected = block_totals(before).insert(
        tx.category,
        capped_sum(amount_of(block_totals(before), tx.category), tx.value),
    );
    assert forall|c: TxCategory| observed(txs, c) == (observed(before, c) || c == tx.category) by {
        if observed(txs, c) {
            let i = choose|i: int| 0 <= i < txs.len() && (#[trigger] txs[i]).category == c;
            if i < before.len() {
                assert(before[i].category == c);
            }
        }
        if observed(before, c) {
            let i = choose|i: int| 0 <= i < before.len() && (#[trigger] before[i]).category == c;
            assert(txs[i].category == c);
        }
        if c == tx.category {
            assert(txs[txs.len() - 1].category == c);
        }
    }
    if !observed(before, tx.category) {
        lemma_sum_of_unobserved(before, tx.category);
    }
    assert(block_totals(txs) =~= expected);
}

/// A block without classified transactions has the summary with number zero,
/// time zero, no totals and the count zero.
pub proof fn lemma_summary_of_nothing()
    ensures
        summary_of(Seq::empty()).block_number == 0,
        summary_of(Seq::empty()).timestamp == 0,
        summary_of(Seq::empty()).category_totals@ == Map::<TxCategory, Wei>::empty(),
        summary_of(Seq::empty()).tx_count == 0,
{
    let txs = Seq::<TxClassified>::empty();
    assert(block_totals(txs) =~= Map::<TxCategory, Wei>::empty());
    lemma_view_of_amounts(block_totals(txs));
}

/// The summary of a block: the total of each category that occurs, the number
/// and time of the block as its first transaction gives them, and the number of
/// transactions. The totals are capped sums, they never wrap.
pub fn summarize_block(classified: &[TxClassified]) -> (summary: FlowSummary)
    ensures
        summary == summary_of(classified@),
        summary.category_totals@ == block_totals(classified@),
{
    let mut totals = CategoryAmounts::new();
    let mut i: usize = 0;
    proof {
        assert(block_totals(classified@.take(0)) =~= Map::<TxCategory, Wei>::empty());
    }
    while i < classified.len()
        invariant
            i <= classified.len(),
            totals@ == block_totals(classified@.take(i as int)),
        decreases classified.len() - i,
    {
        proof {
            let upto = classified@.take(i + 1);
            assert(upto.drop_last() =~= classified@.take(i as int));
            lemma_totals_step(upto);
        }
        totals.add(classified[i].category, classified[i].value);
        i = i + 1;
    }
    proof {
        assert(classified@.take(classified.len() as int) =~= classified@);
        lemma_amounts_with_view(totals);
    }
    let (block_number, timestamp) = if classified.len() > 0 {
        (classified[0].block_number, classified[0].timestamp)
    } else {
        (0, 0)
    };
    FlowSummary { block_number, timestamp, category_totals: totals, tx_count: classified.len() }
}

} // verus!
