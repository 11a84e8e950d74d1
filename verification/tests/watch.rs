use netraflow::category::{CategoryAmounts, TxCategory};
use netraflow::flow_summary::FlowSummary;
use netraflow::heuristics::Heuristics;
use netraflow::monitor::{FlowDelta, ETH_THRESHOLDS};
use netraflow::transaction::{BlockEthereum, TxEthereum};
use netraflow::watch::{FlowWatch, WINDOW_BLOCKS};

fn eth(from: &str, to: Option<&str>, value: &str) -> TxEthereum {
    TxEthereum {
        hash: "0xh".to_string(),
        from: from.to_string(),
        to: to.map(|t| t.to_string()),
        input: "0x".to_string(),
        value: value.to_string(),
    }
}

fn block(number: &str, timestamp: &str, transactions: Vec<TxEthereum>) -> BlockEthereum {
    BlockEthereum { number: number.to_string(), timestamp: timestamp.to_string(), transactions }
}

fn amounts(entries: &[(TxCategory, u128)]) -> CategoryAmounts {
    CategoryAmounts::from_entries(&entries.to_vec())
}

#[test]
fn watch_wants_a_head_beyond_the_last_one_taken_in() {
    let mut watch = FlowWatch::new();
    assert!(!watch.wants(0));
    assert!(watch.wants(1));
    watch.take_block(5, block("0x5", "0x1", vec![]), &Heuristics::new());
    assert!(!watch.wants(4));
    assert!(!watch.wants(5));
    assert!(watch.wants(6));
}

#[test]
fn watch_reports_what_a_block_comes_to() {
    let mut registry = Heuristics::new();
    registry.push_bridge("hop", "0xb1");
    let mut watch = FlowWatch::new();
    let first = watch.take_block(
        16,
        block(
            "0x10",
            "0x64",
            vec![
                eth("0xa", Some("0xB1"), "0x10"),
                eth("0xa", Some("0xdd"), "0x20"),
                eth("0xa", Some("0xee"), "oops"),
                eth("0xa", None, "0x1"),
            ],
        ),
        &registry,
    );
    let expected = FlowSummary {
        block_number: 16,
        timestamp: 100,
        category_totals: amounts(&[
            (TxCategory::Bridge, 16),
            (TxCategory::Foreign, 32),
            (TxCategory::Unknown, 1),
        ]),
        tx_count: 3,
    };
    assert_eq!(first.summary, expected);
    assert_eq!(first.delta, None);
    assert_eq!(first.alerts, vec![]);
    assert_eq!(first.avg_foreign, Some(32));
    assert_eq!(first.latest_block, Some(16));
    assert_eq!(first.window, vec![expected]);

    let second =
        watch.take_block(17, block("0x11", "0x65", vec![eth("0xa", Some("0xdd"), "0x4")]), &registry);
    let next = FlowSummary {
        block_number: 17,
        timestamp: 101,
        category_totals: amounts(&[(TxCategory::Foreign, 4)]),
        tx_count: 1,
    };
    assert_eq!(second.summary, next);
    assert_eq!(
        second.delta,
        Some(FlowDelta { block_number: 17, deltas: amounts(&[(TxCategory::Foreign, 36)]) })
    );
    assert_eq!(second.alerts, vec![]);
    assert_eq!(second.avg_foreign, Some(18));
    assert_eq!(second.latest_block, Some(16));
    assert_eq!(second.window, vec![next, expected]);
}

#[test]
fn watch_raises_the_alert_of_the_monitor() {
    let mut watch = FlowWatch::new();
    let registry = Heuristics::new();
    watch.take_block(1, block("0x1", "0x1", vec![]), &registry);
    let report = watch.take_block(
        2,
        block("0x2", "0x2", vec![eth("0xa", Some("0xdd"), "0x56bc75e2d63100000")]),
        &registry,
    );
    assert_eq!(report.alerts.len(), 1);
    assert_eq!(report.alerts[0].delta_wei, ETH_THRESHOLDS);
    assert_eq!(report.alerts[0].block_number, 2);
    assert_eq!(report.alerts[0].level, 1);
    assert_eq!(report.alerts[0].reason, "High flow delta for Foreign");
}

#[test]
fn watch_holds_a_window_of_ten_blocks() {
    assert_eq!(WINDOW_BLOCKS, 10);
    let mut watch = FlowWatch::new();
    let registry = Heuristics::new();
    let mut last = Vec::new();
    for n in 1..=12u64 {
        let number = format!("{:#x}", n);
        let report = watch.take_block(
            n,
            block(&number, "0x1", vec![eth("0xa", Some("0xdd"), "0x1")]),
            &registry,
        );
        last = report.window.iter().map(|s| s.block_number).collect();
        assert_eq!(report.latest_block, Some(1));
    }
    assert_eq!(last, vec![12, 9, 8, 7, 6, 5, 4, 3, 2, 1]);
}
