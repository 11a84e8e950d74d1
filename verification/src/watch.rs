//! The decisions of a watch that follows the head of the ledger block by block.
//!
//! The watch does no fetching and no waiting itself. Whoever drives it asks
//! whether a head is new, fetches that block, and hands it over.

use vstd::prelude::*;
use crate::aggregator::{summarize_block, summary_of};
use crate::category::{TxCategory, Wei};
use crate::classification::{block_number_of, classified_txs, classify_block};
use crate::flow_summary::FlowSummary;
use crate::heuristics::Heuristics;
use crate::monitor::{
    alert_views, alerts_for, delta_against, window_after_push, window_mean, Alert, FlowDelta,
    FlowMonitor,
};
use crate::transaction::BlockEthereum;

verus! {

/// The number of blocks that the window of a watch holds.
pub const WINDOW_BLOCKS: usize = 10;

/// What a block has come to, once the monitor has taken it in.
#[derive(Debug)]
pub struct BlockReport {
    /// The summary of the block.
    pub summary: FlowSummary,
    /// What the summary amounts to against the window as it was.
    pub delta: Option<FlowDelta>,
    /// The alerts that this raised.
    pub alerts: Vec<Alert>,
    /// The mean foreign total over the window as it is now.
    pub avg_foreign: Option<Wei>,
    /// The block at the back of the window as it is now.
    pub latest_block: Option<u64>,
    /// The window as it is now, the front first.
    pub window: Vec<FlowSummary>,
}

/// The summary that a block comes to under a registry.
pub open spec fn block_summary(heuristics: &Heuristics, block: BlockEthereum) -> FlowSummary {
    summary_of(
        classified_txs(
            heuristics@,
            block_number_of(block.number@),
            block.timestamp@,
            block.transactions@,
        ),
    )
}

/// The state of a watch: the last head that it has taken in, and the monitor.
#[derive(Debug)]
pub struct FlowWatch {
    latest_seen: u64,
    monitor: FlowMonitor,
}

impl FlowWatch {
    /// The number of the last block taken in; zero before the first.
    pub closed spec fn latest_seen(&self) -> u64 {
        self.latest_seen
    }

    /// The window of the monitor.
    pub closed spec fn window(&self) -> Seq<FlowSummary> {
        self.monitor.window()
    }

    /// The number of entries at which the window is full.
    pub closed spec fn max_blocks(&self) -> usize {
        self.monitor.max_blocks()
    }

    /// The thresholds of the monitor.
    pub closed spec fn thresholds(&self) -> Map<TxCategory, Wei> {
        self.monitor.thresholds()
    }

    /// A watch that has seen nothing, with a monitor of `WINDOW_BLOCKS` blocks.
    pub fn new() -> (watch: Self)
        ensures
            watch.latest_seen() == 0,
            watch.window() == Seq::<FlowSummary>::empty(),
            watch.max_blocks() == WINDOW_BLOCKS,
            watch.thresholds() == FlowMonitor::new_thresholds(),
    {
        FlowWatch { latest_seen: 0, monitor: FlowMonitor::new(WINDOW_BLOCKS) }
    }

    /// Whether the block with the number `head` is to be fetched: it is, where
    /// the number is beyond the last one taken in.
    pub fn wants(&self, head: u64) -> (wanted: bool)
        ensures
            wanted == (head > self.latest_seen()),
    {
        head > self.latest_seen
    }

    /// Takes in the block that was fetched for `head`: classifies its
    /// transactions, sums them up, and pushes the summary to the monitor.
    pub fn take_block(&mut self, head: u64, block: BlockEthereum, heuristics: &Heuristics) -> (report:
        BlockReport)
        ensures
            final(self).latest_seen() == head,
            final(self).max_blocks() == old(self).max_blocks(),
            final(self).thresholds() == old(self).thresholds(),
            final(self).window() == window_after_push(
                old(self).window(),
                old(self).max_blocks(),
                report.summary,
            ),
            report.summary == block_summary(heuristics, block),
            report.delta == delta_against(old(self).window(), report.summary),
            alert_views(report.alerts@) == alerts_for(
                report.delta,
                old(self).thresholds(),
                report.summary.block_number,
            ),
            report.avg_foreign == Some(window_mean(final(self).window(), TxCategory::Foreign)),
            report.latest_block == Some(final(self).window().last().block_number),
            report.window@ == final(self).window(),
    {
        let classified = classify_block(block, heuristics);
        let summary = summarize_block(classified.as_slice());
        let (delta, alerts) = self.monitor.push(summary);
        let avg_foreign = self.monitor.avg_flow(&TxCategory::Foreign);
        let latest_block = self.monitor.latest_block();
        let window = self.monitor.entries();
        self.latest_seen = head;
        BlockReport { summary, delta, alerts, avg_foreign, latest_block, window }
    }
}

} // verus!
