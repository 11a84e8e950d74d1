use netraflow::aggregator::summarize_block;
use netraflow::category::{CategoryAmounts, TxCategory};
use netraflow::classification::TxClassified;
use netraflow::flow_summary::FlowSummary;

fn classified(value: u128, category: TxCategory, block_number: u64, timestamp: u64) -> TxClassified {
    TxClassified {
        hash: "0xh".to_string(),
        from: "0xf".to_string(),
        to: Some("0xt".to_string()),
        value,
        category,
        block_number,
        timestamp,
    }
}

#[test]
fn summarize_nothing_gives_the_empty_summary() {
    let summary = summarize_block(&[]);
    assert_eq!(
        summary,
        FlowSummary {
            block_number: 0,
            timestamp: 0,
            category_totals: CategoryAmounts::new(),
            tx_count: 0,
        }
    );
    assert_eq!(summary.category_totals.entries(), vec![]);
}

#[test]
fn summarize_adds_up_by_category() {
    let txs = vec![
        classified(10, TxCategory::Foreign, 7, 70),
        classified(5, TxCategory::Bridge, 7, 70),
        classified(32, TxCategory::Foreign, 7, 70),
        classified(0, TxCategory::Unknown, 7, 70),
    ];
    let summary = summarize_block(&txs);
    assert_eq!(summary.block_number, 7);
    assert_eq!(summary.timestamp, 70);
    assert_eq!(summary.tx_count, 4);
    assert_eq!(
        summary.category_totals.entries(),
        vec![(TxCategory::Bridge, 5), (TxCategory::Foreign, 42), (TxCategory::Unknown, 0)]
    );
    assert_eq!(summary.category_totals.get(TxCategory::Domestic), None);
}

#[test]
fn summarize_takes_number_and_time_from_the_first_transaction() {
    let txs = vec![
        classified(1, TxCategory::Foreign, 11, 110),
        classified(1, TxCategory::Foreign, 12, 120),
        classified(1, TxCategory::Foreign, 13, 130),
    ];
    let summary = summarize_block(&txs);
    assert_eq!(summary.block_number, 11);
    assert_eq!(summary.timestamp, 110);
    assert_eq!(summary.tx_count, 3);
}

#[test]
fn summarize_caps_a_total_at_the_maximum() {
    let txs = vec![
        classified(u128::MAX - 3, TxCategory::Foreign, 1, 1),
        classified(2, TxCategory::Foreign, 1, 1),
        classified(2, TxCategory::Foreign, 1, 1),
        classified(9, TxCategory::Foreign, 1, 1),
        classified(u128::MAX, TxCategory::Bridge, 1, 1),
        classified(u128::MAX, TxCategory::Bridge, 1, 1),
        classified(u128::MAX, TxCategory::Domestic, 1, 1),
    ];
    let summary = summarize_block(&txs);
    assert_eq!(summary.category_totals.get(TxCategory::Foreign), Some(u128::MAX));
    assert_eq!(summary.category_totals.get(TxCategory::Bridge), Some(u128::MAX));
    assert_eq!(summary.category_totals.get(TxCategory::Domestic), Some(u128::MAX));
    assert_eq!(summary.category_totals.get(TxCategory::Unknown), None);
    assert_eq!(summary.tx_count, 7);
}

#[test]
fn summarize_one_transaction() {
    let summary = summarize_block(&[classified(3, TxCategory::Domestic, 2, 4)]);
    let mut totals = CategoryAmounts::new();
    totals.insert(TxCategory::Domestic, 3);
    assert_eq!(
        summary,
        FlowSummary { block_number: 2, timestamp: 4, category_totals: totals, tx_count: 1 }
    );
}
