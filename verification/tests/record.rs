use netraflow::category::{CategoryAmounts, TxCategory};
use netraflow::flow_summary::{FlowSummary, SummaryRecord};

fn totals(entries: &[(&str, u128)]) -> Vec<(String, u128)> {
    entries.iter().map(|(label, total)| (label.to_string(), *total)).collect()
}

fn summary(entries: &[(TxCategory, u128)]) -> FlowSummary {
    FlowSummary {
        block_number: 21_731_900,
        timestamp: 1_756_742_609,
        category_totals: CategoryAmounts::from_entries(&entries.to_vec()),
        tx_count: 212,
    }
}

#[test]
fn record_holds_the_totals_under_the_labels_of_their_categories() {
    let record = summary(&[
        (TxCategory::Unknown, 4),
        (TxCategory::Foreign, 3),
        (TxCategory::Bridge, 2),
        (TxCategory::Domestic, 1),
    ])
    .to_record();
    assert_eq!(
        record,
        SummaryRecord {
            block_number: 21_731_900,
            timestamp: 1_756_742_609,
            category_totals: totals(&[
                ("Domestic", 1),
                ("Bridge", 2),
                ("Foreign", 3),
                ("Unknown", 4)
            ]),
            tx_count: 212,
        }
    );
}

#[test]
fn record_leaves_out_a_category_that_was_not_observed() {
    let record = summary(&[(TxCategory::Foreign, 0)]).to_record();
    assert_eq!(record.category_totals, totals(&[("Foreign", 0)]));
    assert_eq!(summary(&[]).to_record().category_totals, totals(&[]));
}

#[test]
fn record_and_back_is_the_same_summary_with_totals_beyond_64_bits() {
    let before = summary(&[
        (TxCategory::Foreign, (1u128 << 63) + 1),
        (TxCategory::Bridge, u128::MAX),
        (TxCategory::Domestic, 1u128 << 64),
        (TxCategory::Unknown, 0),
    ]);
    let record = before.to_record();
    assert_eq!(
        record.category_totals,
        totals(&[
            ("Domestic", 18_446_744_073_709_551_616),
            ("Bridge", 340_282_366_920_938_463_463_374_607_431_768_211_455),
            ("Foreign", 9_223_372_036_854_775_809),
            ("Unknown", 0),
        ])
    );
    assert_eq!(FlowSummary::from_record(&record), Some(before));
}

#[test]
fn record_and_back_is_the_same_summary_without_totals() {
    let before = FlowSummary {
        block_number: 0,
        timestamp: 0,
        category_totals: CategoryAmounts::new(),
        tx_count: 0,
    };
    assert_eq!(FlowSummary::from_record(&before.to_record()), Some(before));
}

#[test]
fn record_is_read_in_any_order_and_the_later_total_counts() {
    let record = SummaryRecord {
        block_number: 7,
        timestamp: 8,
        category_totals: totals(&[("Unknown", 1), ("Bridge", 5), ("Unknown", 2)]),
        tx_count: 9,
    };
    assert_eq!(
        FlowSummary::from_record(&record),
        Some(FlowSummary {
            block_number: 7,
            timestamp: 8,
            category_totals: CategoryAmounts::from_entries(&vec![
                (TxCategory::Bridge, 5),
                (TxCategory::Unknown, 2)
            ]),
            tx_count: 9,
        })
    );
}

#[test]
fn record_with_a_label_of_no_category_is_no_summary() {
    let record = SummaryRecord {
        block_number: 7,
        timestamp: 8,
        category_totals: totals(&[("Foreign", 1), ("Mixer", 5), ("Bridge", 2)]),
        tx_count: 9,
    };
    assert_eq!(FlowSummary::from_record(&record), None);
    let record = SummaryRecord {
        block_number: 7,
        timestamp: 8,
        category_totals: totals(&[("foreign", 1)]),
        tx_count: 9,
    };
    assert_eq!(FlowSummary::from_record(&record), None);
}
