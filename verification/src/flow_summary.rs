//! The record that one block leaves behind.

use vstd::prelude::*;
use crate::category::{
    amounts_with_view, category_label, category_named, entries_of, entry_list,
    lemma_amounts_with_view, lemma_label_names_its_category, CategoryAmounts, TxCategory, Wei,
};

verus! {

/// What one block moved, by category.
///
/// A category that no transaction of the block fell under is absent from
/// `category_totals`, which means zero.
#[derive(Debug, Clone, Copy, PartialEq, Eq)]
pub struct FlowSummary {
    pub block_number: u64,
    pub timestamp: u64,
    pub category_totals: CategoryAmounts,
    pub tx_count: usize,
}

/// A summary as plain values, as it is handed over to be written down: each
/// total stands under the label of its category.
#[derive(Debug, PartialEq, Eq)]
pub struct SummaryRecord {
    pub block_number: u64,
    pub timestamp: u64,
    pub category_totals: Vec<(String, Wei)>,
    pub tx_count: usize,
}

/// The totals of a record, each label as its text.
pub open spec fn labelled(totals: Seq<(String, Wei)>) -> Seq<(Seq<char>, Wei)> {
    totals.map_values(|entry: (String, Wei)| (entry.0@, entry.1))
}

/// The entries of `amounts` under the labels of their categories, in the order
/// in which the categories are declared.
pub open spec fn labelled_entries(amounts: Map<TxCategory, Wei>) -> Seq<(Seq<char>, Wei)> {
    entries_of(amounts).map_values(|entry: (TxCategory, Wei)| (category_label(entry.0), entry.1))
}

/// The amounts that labelled totals stand for, if each label is that of a
/// category; of two totals under one label the later one counts.
pub open spec fn amounts_labelled(totals: Seq<(Seq<char>, Wei)>) -> Option<Map<TxCategory, Wei>>
    decreases totals.len(),
{
    if totals.len() == 0 {
        Some(Map::empty())
    } else {
        match (amounts_labelled(totals.drop_last()), category_named(totals.last().0)) {
            (Some(amounts), Some(category)) => Some(amounts.insert(category, totals.last().1)),
            _ => None,
        }
    }
}

/// The summary that a record stands for, if each of its labels is that of a category.
pub open spec fn summary_recorded(record: SummaryRecord) -> Option<FlowSummary> {
    match amounts_labelled(labelled(record.category_totals@)) {
        Some(amounts) => Some(
            FlowSummary {
                block_number: record.block_number,
                timestamp: record.timestamp,
                category_totals: amounts_with_view(amounts),
                tx_count: record.tx_count,
            },
        ),
        None => None,
    }
}

impl FlowSummary {
    /// This summary as plain values.
    pub fn to_record(&self) -> (record: SummaryRecord)
        ensures
            record.block_number == self.block_number,
            record.timestamp == self.timestamp,
            record.tx_count == self.tx_count,
            labelled(record.category_totals@) == labelled_entries(self.category_totals@),
            summary_recorded(record) == Some(*self),
    {
        let entries = self.category_totals.entries();
        let mut totals: Vec<(String, Wei)> = Vec::new();
        let mut i: usize = 0;
        while i < entries.len()
            invariant
                i <= entries.len(),
                labelled(totals@) == labelled_entries(self.category_totals@).take(i as int),
                entries@ == entries_of(self.category_totals@),
            decreases entries.len() - i,
        {
            let ghost before = totals@;
            totals.push((entries[i].0.name().to_owned(), entries[i].1));
            proof {
                assert(labelled(totals@) =~= labelled(before).push(
                    (category_label(entries@[i as int].0), entries@[i as int].1),
                ));
                assert(labelled(totals@) =~= labelled_entries(self.category_totals@).take(i + 1));
            }
            i = i + 1;
        }
        proof {
            let all = labelled_entries(self.category_totals@);
            assert(all.take(entries.len() as int) =~= all);
            lemma_labels_keep_amounts(self.category_totals@);
            lemma_amounts_with_view(self.category_totals);
        }
        SummaryRecord {
            block_number: self.block_number,
            timestamp: self.timestamp,
            category_totals: totals,
            tx_count: self.tx_count,
        }
    }

    /// The summary that `record` stands for, if each of its labels is that of
    /// a category.
    pub fn from_record(record: &SummaryRecord) -> (summary: Option<Self>)
        ensures
            summary == summary_recorded(*record),
    {
        let mut amounts = CategoryAmounts::new();
        let mut i: usize = 0;
        let ghost totals = labelled(record.category_totals@);
        while i < record.category_totals.len()
            invariant
                i <= record.category_totals.len(),
                totals == labelled(record.category_totals@),
                amounts_labelled(totals.take(i as int)) == Some(amounts@),
            decreases record.category_totals.len() - i,
        {
            proof {
                assert(totals.take(i + 1).drop_last() =~= totals.take(i as int));
            }
            let entry = &record.category_totals[i];
            match TxCategory::from_name(entry.0.as_str()) {
                Some(category) => amounts.insert(category, entry.1),
                None => {
                    proof {
                        lemma_unknown_label_spoils(totals, i + 1);
                    }
                    return None;
                },
            }
            i = i + 1;
        }
        proof {
            assert(totals.take(totals.len() as int) =~= totals);
            lemma_amounts_with_view(amounts);
        }
        Some(
            FlowSummary {
                block_number: record.block_number,
                timestamp: record.timestamp,
                category_totals: amounts,
                tx_count: record.tx_count,
            },
        )
    }
}

/// Where a beginning of the totals stands for no amounts, the whole does not either.
proof fn lemma_unknown_label_spoils(totals: Seq<(Seq<char>, Wei)>, k: int)
    requires
        0 <= k <= totals.len(),
        amounts_labelled(totals.take(k)) is None,
    ensures
        amounts_labelled(totals) is None,
    decreases totals.len() - k,
{
    if k == totals.len() {
        assert(totals.take(k) =~= totals);
    } else {
        assert(totals.take(k + 1).drop_last() =~= totals.take(k));
        lemma_unknown_label_spoils(totals, k + 1);
    }
}

/// One more labelled entry of a category is one more amount.
proof fn lemma_labelled_append(
    totals: Seq<(Seq<char>, Wei)>,
    before: Map<TxCategory, Wei>,
    amounts: Map<TxCategory, Wei>,
    category: TxCategory,
)
    requires
        amounts_labelled(totals) == Some(before),
    ensures
        amounts_labelled(
            totals + entry_list(amounts, category).map_values(
                |entry: (TxCategory, Wei)| (category_label(entry.0), entry.1),
            ),
        ) == Some(
            if amounts.contains_key(category) {
                before.insert(category, amounts[category])
            } else {
                before
            },
        ),
{
    let one = entry_list(amounts, category).map_values(
        |entry: (TxCategory, Wei)| (category_label(entry.0), entry.1),
    );
    if amounts.contains_key(category) {
        assert((totals + one).drop_last() =~= totals);
        assert((totals + one).last() == (category_label(category), amounts[category]));
        lemma_label_names_its_category(category);
    } else {
        assert(totals + one =~= totals);
    }
}

/// Amounts that are written down under the labels of their categories and read
/// again are the same amounts: nothing of a total is lost on the way, however
/// large it is.
pub proof fn lemma_labels_keep_amounts(amounts: Map<TxCategory, Wei>)
    ensures
        amounts_labelled(labelled_entries(amounts)) == Some(amounts),
{
    let label = |entry: (TxCategory, Wei)| (category_label(entry.0), entry.1);
    let d = entry_list(amounts, TxCategory::Domestic);
    let b = entry_list(amounts, TxCategory::Bridge);
    let f = entry_list(amounts, TxCategory::Foreign);
    let u = entry_list(amounts, TxCategory::Unknown);
    let empty = Seq::<(Seq<char>, Wei)>::empty();
    let none = Map::<TxCategory, Wei>::empty();
    lemma_labelled_append(empty, none, amounts, TxCategory::Domestic);
    let after_d = amounts_labelled(empty + d.map_values(label))->0;
    lemma_labelled_append(empty + d.map_values(label), after_d, amounts, TxCategory::Bridge);
    let upto_b = empty + d.map_values(label) + b.map_values(label);
    let after_b = amounts_labelled(upto_b)->0;
    lemma_labelled_append(upto_b, after_b, amounts, TxCategory::Foreign);
    let upto_f = upto_b + f.map_values(label);
    let after_f = amounts_labelled(upto_f)->0;
    lemma_labelled_append(upto_f, after_f, amounts, TxCategory::Unknown);
    let all = upto_f + u.map_values(label);
    assert(all =~= labelled_entries(amounts));
    let read = amounts_labelled(all)->0;
    assert forall|c: TxCategory| read.contains_key(c) == amounts.contains_key(c) by {}
    assert(read =~= amounts);
}

/// A summary that is taken down as a record and read again is the same
/// summary, totals beyond 64 bits included.
pub proof fn lemma_record_keeps_summary(summary: FlowSummary, record: SummaryRecord)
    requires
        record.block_number == summary.block_number,
        record.timestamp == summary.timestamp,
        record.tx_count == summary.tx_count,
        labelled(record.category_totals@) == labelled_entries(summary.category_totals@),
    ensures
        summary_recorded(record) == Some(summary),
{
    lemma_labels_keep_amounts(summary.category_totals@);
    lemma_amounts_with_view(summary.category_totals);
}

} // verus!
