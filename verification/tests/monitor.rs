use netraflow::category::{CategoryAmounts, TxCategory};
use netraflow::flow_summary::FlowSummary;
use netraflow::monitor::{Alert, FlowDelta, FlowMonitor, ALERT_LEVEL, ETH_THRESHOLDS};

fn amounts(entries: &[(TxCategory, u128)]) -> CategoryAmounts {
    CategoryAmounts::from_entries(&entries.to_vec())
}

fn summary(block_number: u64, entries: &[(TxCategory, u128)]) -> FlowSummary {
    FlowSummary {
        block_number,
        timestamp: 1_000 + block_number,
        category_totals: amounts(entries),
        tx_count: entries.len(),
    }
}

fn foreign(block_number: u64, total: u128) -> FlowSummary {
    summary(block_number, &[(TxCategory::Foreign, total)])
}

fn monitor(max_blocks: usize, threshold: u128) -> FlowMonitor {
    FlowMonitor::with_thresholds(max_blocks, amounts(&[(TxCategory::Foreign, threshold)]))
}

#[test]
fn monitor_starts_empty() {
    let monitor = FlowMonitor::new(10);
    assert_eq!(monitor.entries(), vec![]);
    assert_eq!(monitor.latest_block(), None);
    assert_eq!(monitor.avg_flow(&TxCategory::Foreign), None);
    assert_eq!(monitor.avg_flow(&TxCategory::Bridge), None);
}

#[test]
fn monitor_first_push_gives_no_delta_and_no_alert() {
    let mut monitor = monitor(2, 0);
    let (delta, alerts) = monitor.push(foreign(1, u128::MAX));
    assert_eq!(delta, None);
    assert_eq!(alerts, vec![]);
    assert_eq!(monitor.entries(), vec![foreign(1, u128::MAX)]);
}

#[test]
fn monitor_of_capacity_two_drops_the_second_of_three() {
    let mut monitor = FlowMonitor::new(2);
    let (s1, s2, s3) = (foreign(1, 10), foreign(2, 20), foreign(3, 30));
    monitor.push(s1);
    assert_eq!(monitor.entries(), vec![s1]);
    monitor.push(s2);
    assert_eq!(monitor.entries(), vec![s2, s1]);
    monitor.push(s3);
    assert_eq!(monitor.entries(), vec![s3, s1]);
    assert_eq!(monitor.latest_block(), Some(1));
}

#[test]
fn monitor_keeps_the_first_entry_at_the_back() {
    let mut monitor = FlowMonitor::new(3);
    for n in 1..=8 {
        monitor.push(foreign(n, n as u128));
        assert_eq!(monitor.latest_block(), Some(1));
    }
    assert_eq!(monitor.entries(), vec![foreign(8, 8), foreign(2, 2), foreign(1, 1)]);
}

#[test]
fn monitor_of_capacity_one_holds_the_last_summary() {
    let mut monitor = FlowMonitor::new(1);
    monitor.push(foreign(1, 10));
    monitor.push(foreign(2, 20));
    monitor.push(foreign(3, 30));
    assert_eq!(monitor.entries(), vec![foreign(3, 30)]);
    assert_eq!(monitor.latest_block(), Some(3));
}

#[test]
fn monitor_of_capacity_zero_never_drops() {
    let mut monitor = FlowMonitor::new(0);
    monitor.push(foreign(1, 10));
    monitor.push(foreign(2, 20));
    monitor.push(foreign(3, 30));
    assert_eq!(monitor.entries(), vec![foreign(3, 30), foreign(2, 20), foreign(1, 10)]);
    assert_eq!(monitor.latest_block(), Some(1));
}

#[test]
fn monitor_delta_is_the_sum_with_the_entry_at_the_back() {
    let mut monitor = monitor(2, u128::MAX);
    monitor.push(summary(1, &[(TxCategory::Foreign, 100), (TxCategory::Bridge, 7)]));
    monitor.push(summary(2, &[(TxCategory::Foreign, 1_000)]));
    let (delta, alerts) =
        monitor.push(summary(3, &[(TxCategory::Foreign, 5), (TxCategory::Unknown, 9)]));
    assert_eq!(
        delta,
        Some(FlowDelta {
            block_number: 3,
            deltas: amounts(&[(TxCategory::Foreign, 105), (TxCategory::Unknown, 9)]),
        })
    );
    assert_eq!(alerts, vec![]);
}

#[test]
fn monitor_delta_leaves_out_what_only_the_back_entry_has() {
    let mut monitor = monitor(4, u128::MAX);
    monitor.push(summary(1, &[(TxCategory::Bridge, 7), (TxCategory::Domestic, 1)]));
    let (delta, _) = monitor.push(summary(2, &[]));
    assert_eq!(delta, Some(FlowDelta { block_number: 2, deltas: CategoryAmounts::new() }));
    let (delta, _) = monitor.push(summary(3, &[(TxCategory::Bridge, 0)]));
    assert_eq!(
        delta,
        Some(FlowDelta { block_number: 3, deltas: amounts(&[(TxCategory::Bridge, 7)]) })
    );
}

#[test]
fn monitor_delta_is_capped() {
    let mut monitor = monitor(4, u128::MAX);
    monitor.push(foreign(1, u128::MAX - 1));
    let (delta, alerts) = monitor.push(foreign(2, 2));
    assert_eq!(
        delta,
        Some(FlowDelta { block_number: 2, deltas: amounts(&[(TxCategory::Foreign, u128::MAX)]) })
    );
    assert_eq!(alerts.len(), 1);
    assert_eq!(alerts[0].delta_wei, u128::MAX);
}

#[test]
fn monitor_raises_one_alert_at_the_threshold() {
    let mut monitor = monitor(2, 300);
    monitor.push(foreign(41, 100));
    let (delta, alerts) = monitor.push(foreign(42, 200));
    assert_eq!(delta.map(|d| d.deltas.get(TxCategory::Foreign)), Some(Some(300)));
    assert_eq!(
        alerts,
        vec![Alert {
            level: 1,
            reason: "High flow delta for Foreign".to_string(),
            affected_category: TxCategory::Foreign,
            delta_wei: 300,
            block_number: 42,
        }]
    );
    assert_eq!(ALERT_LEVEL, 1);
}

#[test]
fn monitor_raises_one_alert_above_the_threshold() {
    let mut monitor = monitor(2, 300);
    monitor.push(foreign(41, 100));
    let (_, alerts) = monitor.push(foreign(42, 201));
    assert_eq!(alerts.len(), 1);
    assert_eq!(alerts[0].level, 1);
    assert_eq!(alerts[0].block_number, 42);
    assert_eq!(alerts[0].delta_wei, 301);
}

#[test]
fn monitor_raises_no_alert_below_the_threshold() {
    let mut monitor = monitor(2, 300);
    monitor.push(foreign(41, 100));
    let (delta, alerts) = monitor.push(foreign(42, 199));
    assert_eq!(delta.map(|d| d.deltas.get(TxCategory::Foreign)), Some(Some(299)));
    assert_eq!(alerts, vec![]);
}

#[test]
fn monitor_raises_no_alert_for_a_category_without_threshold() {
    let mut monitor = monitor(2, 300);
    monitor.push(summary(1, &[(TxCategory::Bridge, u128::MAX)]));
    let (_, alerts) = monitor.push(summary(
        2,
        &[
            (TxCategory::Bridge, u128::MAX),
            (TxCategory::Domestic, u128::MAX),
            (TxCategory::Unknown, u128::MAX),
        ],
    ));
    assert_eq!(alerts, vec![]);
}

#[test]
fn monitor_raises_alerts_in_the_order_of_the_categories() {
    let thresholds = amounts(&[
        (TxCategory::Unknown, 1),
        (TxCategory::Domestic, 1),
        (TxCategory::Bridge, 50),
        (TxCategory::Foreign, 1),
    ]);
    let mut monitor = FlowMonitor::with_thresholds(3, thresholds);
    monitor.push(summary(1, &[]));
    let (_, alerts) = monitor.push(summary(
        9,
        &[
            (TxCategory::Foreign, 4),
            (TxCategory::Unknown, 3),
            (TxCategory::Bridge, 2),
            (TxCategory::Domestic, 1),
        ],
    ));
    let seen: Vec<(TxCategory, u128, &str, u64, u8)> = alerts
        .iter()
        .map(|a| (a.affected_category, a.delta_wei, a.reason.as_str(), a.block_number, a.level))
        .collect();
    assert_eq!(
        seen,
        vec![
            (TxCategory::Domestic, 1, "High flow delta for Domestic", 9, 1),
            (TxCategory::Foreign, 4, "High flow delta for Foreign", 9, 1),
            (TxCategory::Unknown, 3, "High flow delta for Unknown", 9, 1),
        ]
    );
}

#[test]
fn monitor_new_sets_the_foreign_threshold_only() {
    assert_eq!(ETH_THRESHOLDS, 100_000_000_000_000_000_000);
    let mut monitor = FlowMonitor::new(5);
    monitor.push(summary(1, &[]));
    let (_, alerts) = monitor.push(summary(
        2,
        &[(TxCategory::Foreign, ETH_THRESHOLDS - 1), (TxCategory::Bridge, u128::MAX)],
    ));
    assert_eq!(alerts, vec![]);
    let (_, alerts) = monitor.push(summary(
        3,
        &[(TxCategory::Foreign, ETH_THRESHOLDS), (TxCategory::Bridge, u128::MAX)],
    ));
    assert_eq!(alerts.len(), 1);
    assert_eq!(alerts[0].affected_category, TxCategory::Foreign);
    assert_eq!(alerts[0].delta_wei, ETH_THRESHOLDS);
    assert_eq!(alerts[0].block_number, 3);
    assert_eq!(alerts[0].level, 1);
}

#[test]
fn monitor_averages_the_totals_of_the_window() {
    let mut monitor = FlowMonitor::new(2);
    assert_eq!(monitor.avg_flow(&TxCategory::Foreign), None);
    monitor.push(foreign(1, 100));
    assert_eq!(monitor.avg_flow(&TxCategory::Foreign), Some(100));
    monitor.push(foreign(2, 300));
    assert_eq!(monitor.avg_flow(&TxCategory::Foreign), Some(200));
    assert_eq!(monitor.avg_flow(&TxCategory::Bridge), Some(0));
}

#[test]
fn monitor_average_counts_a_missing_category_as_zero_and_rounds_down() {
    let mut monitor = FlowMonitor::new(3);
    monitor.push(summary(1, &[(TxCategory::Bridge, 10)]));
    monitor.push(summary(2, &[(TxCategory::Foreign, 5)]));
    monitor.push(summary(3, &[(TxCategory::Bridge, 1)]));
    assert_eq!(monitor.avg_flow(&TxCategory::Bridge), Some(3));
    assert_eq!(monitor.avg_flow(&TxCategory::Foreign), Some(1));
    assert_eq!(monitor.avg_flow(&TxCategory::Unknown), Some(0));
}

#[test]
fn monitor_average_caps_the_sum() {
    let mut monitor = FlowMonitor::new(2);
    monitor.push(foreign(1, u128::MAX));
    monitor.push(foreign(2, u128::MAX));
    assert_eq!(monitor.avg_flow(&TxCategory::Foreign), Some(u128::MAX / 2));
}

#[test]
fn monitor_detects_alerts_of_a_delta() {
    let monitor = monitor(2, 10);
    let delta = Some(FlowDelta { block_number: 1, deltas: amounts(&[(TxCategory::Foreign, 10)]) });
    let alerts = monitor.detect_alerts(&delta, 77);
    assert_eq!(alerts.len(), 1);
    assert_eq!(alerts[0].block_number, 77);
    assert_eq!(monitor.detect_alerts(&None, 77), vec![]);
}

#[test]
fn monitor_computes_the_delta_without_taking_the_summary_in() {
    let mut monitor = monitor(2, 10);
    assert_eq!(monitor.compute_delta(&foreign(1, 1)), None);
    monitor.push(foreign(1, 1));
    assert_eq!(
        monitor.compute_delta(&foreign(2, 2)),
        Some(FlowDelta { block_number: 2, deltas: amounts(&[(TxCategory::Foreign, 3)]) })
    );
    assert_eq!(monitor.entries(), vec![foreign(1, 1)]);
}
