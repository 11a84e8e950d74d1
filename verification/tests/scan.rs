use netraflow::category::TxCategory;
use netraflow::heuristics::{Heuristics, LabelEntry};
use netraflow::scan::{scan_tx, scan_txs, Sighting};
use netraflow::transaction::Tx;

fn tx(from: &str, to: Option<&str>) -> Tx {
    Tx {
        hash: "0xh".to_string(),
        from: from.to_string(),
        to: to.map(|t| t.to_string()),
        input: "0x".to_string(),
        value: "0x1".to_string(),
    }
}

fn entry(label: &str, addresses: &[&str]) -> LabelEntry {
    LabelEntry {
        label: label.to_string(),
        addresses: addresses.iter().map(|a| a.to_string()).collect(),
    }
}

fn sighting(from: &str, to: &str, category: TxCategory) -> Sighting {
    Sighting { from: from.to_string(), to: to.to_string(), category }
}

#[test]
fn scan_passes_over_a_transaction_without_recipient() {
    let mut registry = Heuristics::new();
    assert_eq!(scan_tx(&tx("0xF", None), &mut registry), None);
    assert_eq!(registry.cex.entries(), vec![]);
    assert_eq!(registry.bridge.entries(), vec![]);
}

#[test]
fn scan_learns_the_recipient_in_lower_case() {
    let mut registry = Heuristics::new();
    let seen = scan_tx(&tx("0xFrom", Some("0xABCdef")), &mut registry);
    assert_eq!(seen, Some(sighting("0xFrom", "0xabcdef", TxCategory::Foreign)));
    assert_eq!(registry.cex.entries(), vec![entry("unknown", &["0xabcdef"])]);
    assert_eq!(registry.bridge.entries(), vec![]);
}

#[test]
fn scan_learns_a_bridge_recipient_as_a_bridge() {
    let mut registry = Heuristics::new();
    registry.push_bridge("hop", "0xB1");
    let seen = scan_tx(&tx("0xf", Some("0XB1")), &mut registry);
    assert_eq!(seen, Some(sighting("0xf", "0xb1", TxCategory::Bridge)));
    assert_eq!(
        registry.bridge.entries(),
        vec![entry("hop", &["0xB1"]), entry("unknown", &["0xb1"])]
    );
    assert_eq!(registry.cex.entries(), vec![]);
}

#[test]
fn scan_sees_each_transaction_with_what_the_earlier_ones_taught() {
    let mut registry = Heuristics::new();
    registry.push_bridge("hop", "0xb1");
    let txs = vec![
        tx("0x1", Some("0xAA")),
        tx("0x2", None),
        tx("0x3", Some("0xB1")),
        tx("0x4", Some("0xaa")),
    ];
    let seen = scan_txs(&txs, &mut registry);
    assert_eq!(
        seen,
        vec![
            sighting("0x1", "0xaa", TxCategory::Foreign),
            sighting("0x3", "0xb1", TxCategory::Bridge),
            sighting("0x4", "0xaa", TxCategory::Foreign),
        ]
    );
    assert_eq!(registry.cex.entries(), vec![entry("unknown", &["0xaa", "0xaa"])]);
    assert_eq!(
        registry.bridge.entries(),
        vec![entry("hop", &["0xb1"]), entry("unknown", &["0xb1"])]
    );
}

#[test]
fn scan_of_nothing_changes_nothing() {
    let mut registry = Heuristics::new();
    registry.push_cex("binance", "0x01");
    assert_eq!(scan_txs(&vec![], &mut registry), vec![]);
    assert_eq!(registry.cex.entries(), vec![entry("binance", &["0x01"])]);
}
