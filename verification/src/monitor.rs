//! A bounded history of block summaries, with the change and the alerts that
//! each new summary gives rise to.

use std::collections::VecDeque;
use vstd::prelude::*;
use vstd::string::*;
use crate::category::{
    amount_of, amounts_with_view, capped, capped_sum, category_label, lemma_amounts_with_view,
    lemma_view_of_amounts, CategoryAmounts, TxCategory, Wei,
};
use crate::flow_summary::FlowSummary;

verus! {

/// The threshold that a new monitor sets for the foreign category: 100 ether, in wei.
pub const ETH_THRESHOLDS: Wei = 100_000_000_000_000_000_000;

/// The level of every alert that the monitor raises.
pub const ALERT_LEVEL: u8 = 1;

/// What a new summary amounts to against the reference entry of the window.
#[derive(Debug, Clone, Copy, PartialEq, Eq)]
pub struct FlowDelta {
    pub block_number: u64,
    pub deltas: CategoryAmounts,
}

/// A change that reached the threshold of its category.
#[derive(Debug, PartialEq, Eq)]
pub struct Alert {
    pub level: u8,
    pub reason: String,
    pub affected_category: TxCategory,
    pub delta_wei: Wei,
    pub block_number: u64,
}

/// An alert as plain values.
pub ghost struct AlertView {
    pub level: u8,
    pub reason: Seq<char>,
    pub affected_category: TxCategory,
    pub delta_wei: Wei,
    pub block_number: u64,
}

impl View for Alert {
    type V = AlertView;

    open spec fn view(&self) -> AlertView {
        AlertView {
            level: self.level,
            reason: self.reason@,
            affected_category: self.affected_category,
            delta_wei: self.delta_wei,
            block_number: self.block_number,
        }
    }
}

/// The alerts of a list, each as plain values.
pub open spec fn alert_views(alerts: Seq<Alert>) -> Seq<AlertView> {
    alerts.map_values(|a: Alert| a@)
}

/// The change of each category of `current`: its total added to the total that
/// `reference` holds for the same category. This is a sum, capped, not a difference.
/// A category that only `reference` holds has no change.
pub open spec fn delta_amounts(
    current: Map<TxCategory, Wei>,
    reference: Map<TxCategory, Wei>,
) -> Map<TxCategory, Wei> {
    Map::new(
        |c: TxCategory| current.contains_key(c),
        |c: TxCategory| capped_sum(current[c], amount_of(reference, c)),
    )
}

/// What `current` amounts to against the entry at the back of `window`, if the
/// window has one: for each category of `current`, its total added to the total
/// of that entry.
pub open spec fn delta_against(window: Seq<FlowSummary>, current: FlowSummary) -> Option<
    FlowDelta,
> {
    if window.len() == 0 {
        None
    } else {
        Some(
            FlowDelta {
                block_number: current.block_number,
                deltas: amounts_with_view(
                    delta_amounts(current.category_totals@, window.last().category_totals@),
                ),
            },
        )
    }
}

/// The reason that an alert for `category` gives.
pub open spec fn alert_reason(category: TxCategory) -> Seq<char> {
    "High flow delta for "@ + category_label(category)
}

/// Whether the change of `category` reaches the threshold set for it.
pub open spec fn raises_alert(
    deltas: Map<TxCategory, Wei>,
    thresholds: Map<TxCategory, Wei>,
    category: TxCategory,
) -> bool {
    &&& deltas.contains_key(category)
    &&& thresholds.contains_key(category)
    &&& deltas[category] >= thresholds[category]
}

/// The alert for `category`, if its change reaches its threshold.
pub open spec fn alerts_of_category(
    deltas: Map<TxCategory, Wei>,
    thresholds: Map<TxCategory, Wei>,
    block_number: u64,
    category: TxCategory,
) -> Seq<AlertView> {
    if raises_alert(deltas, thresholds, category) {
        seq![
            AlertView {
                level: ALERT_LEVEL,
                reason: alert_reason(category),
                affected_category: category,
                delta_wei: deltas[category],
                block_number,
            },
        ]
    } else {
        Seq::empty()
    }
}

/// The alerts that `deltas` raise against `thresholds`, in the order in which
/// the categories are declared.
pub open spec fn alerts_of(
    deltas: Map<TxCategory, Wei>,
    thresholds: Map<TxCategory, Wei>,
    block_number: u64,
) -> Seq<AlertView> {
    alerts_of_category(deltas, thresholds, block_number, TxCategory::Domestic)
        + alerts_of_category(deltas, thresholds, block_number, TxCategory::Bridge)
        + alerts_of_category(deltas, thresholds, block_number, TxCategory::Foreign)
        + alerts_of_category(deltas, thresholds, block_number, TxCategory::Unknown)
}

/// The alerts that a change raises; where there is no change there is none.
pub open spec fn alerts_for(
    delta: Option<FlowDelta>,
    thresholds: Map<TxCategory, Wei>,
    block_number: u64,
) -> Seq<AlertView> {
    match delta {
        Some(d) => alerts_of(d.deltas@, thresholds, block_number),
        None => Seq::empty(),
    }
}

/// The window after `summary` has been pushed: it goes to the front, and where
/// the window was full the entry that stood at the front leaves first. So it is
/// the entry pushed last that leaves, not the oldest one.
pub open spec fn window_after_push(
    window: Seq<FlowSummary>,
    max_blocks: usize,
    summary: FlowSummary,
) -> Seq<FlowSummary> {
    if window.len() == max_blocks && window.len() > 0 {
        seq![summary] + window.skip(1)
    } else {
        seq![summary] + window
    }
}

/// Whether a window holds no more entries than its capacity, which is not zero.
pub open spec fn window_bounded(window: Seq<FlowSummary>, max_blocks: usize) -> bool {
    max_blocks > 0 && window.len() <= max_blocks
}

/// The totals of `category` over the entries of a window, added up without a cap.
pub open spec fn window_total(window: Seq<FlowSummary>, category: TxCategory) -> nat
    decreases window.len(),
{
    if window.len() == 0 {
        0
    } else {
        window_total(window.drop_last(), category) + amount_of(
            window.last().category_totals@,
            category,
        ) as nat
    }
}

/// The mean of the totals of `category` over a window that is not empty; the
/// sum is capped before it is divided.
pub open spec fn window_mean(window: Seq<FlowSummary>, category: TxCategory) -> Wei {
    (capped(window_total(window, category) as int) as int / window.len() as int) as Wei
}

/// The history of the last blocks and the thresholds that raise an alert.
#[derive(Debug)]
pub struct FlowMonitor {
    window: VecDeque<FlowSummary>,
    max_blocks: usize,
    alert_thresholds: CategoryAmounts,
}

impl FlowMonitor {
    /// The entries of the window, the front first.
    pub closed spec fn window(&self) -> Seq<FlowSummary> {
        self.window@
    }

    /// The number of entries at which the window is full.
    pub closed spec fn max_blocks(&self) -> usize {
        self.max_blocks
    }

    /// The threshold of each category that has one.
    pub closed spec fn thresholds(&self) -> Map<TxCategory, Wei> {
        self.alert_thresholds@
    }

    /// The thresholds of a new monitor: one, for the foreign category.
    pub open spec fn new_thresholds() -> Map<TxCategory, Wei> {
        Map::<TxCategory, Wei>::empty().insert(TxCategory::Foreign, ETH_THRESHOLDS)
    }

    /// A monitor with an empty window, in which only the foreign category has
    /// a threshold.
    pub fn new(max_blocks: usize) -> (monitor: Self)
        ensures
            monitor.window() == Seq::<FlowSummary>::empty(),
            monitor.max_blocks() == max_blocks,
            monitor.thresholds() == Self::new_thresholds(),
    {
        let mut thresholds = CategoryAmounts::new();
        thresholds.insert(TxCategory::Foreign, ETH_THRESHOLDS);
        FlowMonitor::with_thresholds(max_blocks, thresholds)
    }

    /// A monitor with an empty window and the given thresholds.
    pub fn with_thresholds(max_blocks: usize, thresholds: CategoryAmounts) -> (monitor: Self)
        ensures
            monitor.window() == Seq::<FlowSummary>::empty(),
            monitor.max_blocks() == max_blocks,
            monitor.thresholds() == thresholds@,
    {
        FlowMonitor {
            window: VecDeque::new(),
            max_blocks,
            alert_thresholds: thresholds,
        }
    }

    /// Takes a new summary in: says what it amounts to against the entry at the
    /// back of the window, raises the alerts for that, and then puts the summary
    /// at the front of the window. With an empty window there is no change to
    /// speak of, and no alert.
    pub fn push(&mut self, new_summary: FlowSummary) -> (outcome: (Option<FlowDelta>, Vec<Alert>))
        ensures
            outcome.0 == delta_against(old(self).window(), new_summary),
            outcome.0 matches Some(d) ==> d.deltas@ == delta_amounts(
                new_summary.category_totals@,
                old(self).window().last().category_totals@,
            ),
            alert_views(outcome.1@) == alerts_for(
                outcome.0,
                old(self).thresholds(),
                new_summary.block_number,
            ),
            final(self).window() == window_after_push(
                old(self).window(),
                old(self).max_blocks(),
                new_summary,
            ),
            final(self).max_blocks() == old(self).max_blocks(),
            final(self).thresholds() == old(self).thresholds(),
            window_bounded(old(self).window(), old(self).max_blocks()) ==> window_bounded(
                final(self).window(),
                final(self).max_blocks(),
            ),
    {
        let delta = self.compute_delta(&new_summary);
        let alerts = self.detect_alerts(&delta, new_summary.block_number);

        if self.window.len() == self.max_blocks {
            self.window.pop_front();
        }
        self.window.push_front(new_summary);
        proof {
            if window_bounded(old(self).window(), old(self).max_blocks()) {
                lemma_push_keeps_window_bounded(
                    old(self).window(),
                    old(self).max_blocks(),
                    new_summary,
                );
            }
            assert(self.window@ =~= window_after_push(
                old(self).window(),
                old(self).max_blocks(),
                new_summary,
            ));
        }
        (delta, alerts)
    }

    /// What `current` amounts to against the entry at the back of the window.
    pub fn compute_delta(&self, current: &FlowSummary) -> (delta: Option<FlowDelta>)
        ensures
            delta == delta_against(self.window(), *current),
            delta matches Some(d) ==> d.deltas@ == delta_amounts(
                current.category_totals@,
                self.window().last().category_totals@,
            ),
    {
        let len = self.window.len();
        if len == 0 {
            return None;
        }
        let prev = &self.window[len - 1];
        let mut deltas = CategoryAmounts::new();
        add_delta(&mut deltas, current, prev, TxCategory::Domestic);
        add_delta(&mut deltas, current, prev, TxCategory::Bridge);
        add_delta(&mut deltas, current, prev, TxCategory::Foreign);
        add_delta(&mut deltas, current, prev, TxCategory::Unknown);
        proof {
            let expected = delta_amounts(current.category_totals@, prev.category_totals@);
            assert(deltas@ =~= expected);
            lemma_amounts_with_view(deltas);
        }
        Some(FlowDelta { block_number: current.block_number, deltas })
    }

    /// The mean of the totals of `category` over the entries of the window, if
    /// it has any. These are the totals of the blocks, not the changes.
    pub fn avg_flow(&self, category: &TxCategory) -> (mean: Option<Wei>)
        ensures
            mean == (if self.window().len() == 0 {
                None
            } else {
                Some(window_mean(self.window(), *category))
            }),
    {
        let len = self.window.len();
        if len == 0 {
            return None;
        }
        let mut total: Wei = 0;
        let mut i: usize = 0;
        while i < len
            invariant
                i <= len,
                len == self.window@.len(),
                total == capped(window_total(self.window@.take(i as int), *category) as int),
            decreases len - i,
        {
            let entry = self.window[i].category_totals.amount(*category);
            proof {
                assert(self.window@.take(i + 1).drop_last() =~= self.window@.take(i as int));
            }
            total = total.saturating_add(entry);
            i = i + 1;
        }
        proof {
            assert(self.window@.take(len as int) =~= self.window@);
        }
        Some(total / (len as u128))
    }

    /// The block number of the entry at the back of the window, if it has one.
    pub fn latest_block(&self) -> (block_number: Option<u64>)
        ensures
            block_number == (if self.window().len() == 0 {
                None
            } else {
                Some(self.window().last().block_number)
            }),
    {
        let len = self.window.len();
        if len == 0 {
            None
        } else {
            Some(self.window[len - 1].block_number)
        }
    }

    /// A copy of the entries of the window, the front first.
    pub fn entries(&self) -> (entries: Vec<FlowSummary>)
        ensures
            entries@ == self.window(),
    {
        let len = self.window.len();
        let mut entries: Vec<FlowSummary> = Vec::new();
        let mut i: usize = 0;
        while i < len
            invariant
                i <= len,
                len == self.window@.len(),
                entries@ == self.window@.take(i as int),
            decreases len - i,
        {
            entries.push(self.window[i]);
            proof {
                assert(entries@ =~= self.window@.take(i + 1));
            }
            i = i + 1;
        }
        proof {
            assert(self.window@.take(len as int) =~= self.window@);
        }
        entries
    }

    /// The alerts that `delta` raises against the thresholds of this monitor.
    pub fn detect_alerts(&self, delta: &Option<FlowDelta>, block_number: u64) -> (alerts: Vec<
        Alert,
    >)
        ensures
            alert_views(alerts@) == alerts_for(*delta, self.thresholds(), block_number),
    {
        let mut alerts: Vec<Alert> = Vec::new();
        assert(alert_views(alerts@) =~= Seq::<AlertView>::empty());
        match delta {
            Some(d) => {
                self.check_category(&d.deltas, TxCategory::Domestic, block_number, &mut alerts);
                self.check_category(&d.deltas, TxCategory::Bridge, block_number, &mut alerts);
                self.check_category(&d.deltas, TxCategory::Foreign, block_number, &mut alerts);
                self.check_category(&d.deltas, TxCategory::Unknown, block_number, &mut alerts);
            },
            None => {},
        }
        alerts
    }

    fn check_category(
        &self,
        deltas: &CategoryAmounts,
        category: TxCategory,
        block_number: u64,
        alerts: &mut Vec<Alert>,
    )
        ensures
            alert_views(final(alerts)@) == alert_views(old(alerts)@) + alerts_of_category(
                deltas@,
                self.thresholds(),
                block_number,
                category,
            ),
    {
        let ghost before = alerts@;
        if let Some(change) = deltas.get(category) {
            if let Some(threshold) = self.alert_thresholds.get(category) {
                if change >= threshold {
                    let reason = String::from_str("High flow delta for ").concat(category.name());
                    let alert = Alert {
                        level: ALERT_LEVEL,
                        reason,
                        affected_category: category,
                        delta_wei: change,
                        block_number,
                    };
                    alerts.push(alert);
                    assert(alert_views(alerts@) =~= alert_views(before) + seq![alert@]);
                    return ;
                }
            }
        }
        assert(alert_views(alerts@) =~= alert_views(before) + Seq::<AlertView>::empty());
    }
}

/// Puts the change of `category` into `deltas`, where `current` holds the category.
fn add_delta(
    deltas: &mut CategoryAmounts,
    current: &FlowSummary,
    prev: &FlowSummary,
    category: TxCategory,
)
    ensures
        final(deltas)@ == (if current.category_totals@.contains_key(category) {
            old(deltas)@.insert(
                category,
                capped_sum(
                    current.category_totals@[category],
                    amount_of(prev.category_totals@, category),
                ),
            )
        } else {
            old(deltas)@
        }),
{
    if let Some(curr_val) = current.category_totals.get(category) {
        let prev_val = prev.category_totals.amount(category);
        deltas.insert(category, curr_val.saturating_add(prev_val));
    }
}

/// A push leaves a bounded window bounded: it never outgrows a capacity that
/// is not zero.
pub proof fn lemma_push_keeps_window_bounded(
    window: Seq<FlowSummary>,
    max_blocks: usize,
    summary: FlowSummary,
)
    requires
        window_bounded(window, max_blocks),
    ensures
        window_bounded(window_after_push(window, max_blocks, summary), max_blocks),
{
}

/// Where the window holds at least one entry and its capacity is two or more,
/// the entry at the back stays at the back: it is the first entry ever pushed
/// that later summaries are held against.
pub proof fn lemma_back_entry_stays(
    window: Seq<FlowSummary>,
    max_blocks: usize,
    summary: FlowSummary,
)
    requires
        window.len() > 0,
        max_blocks >= 2,
        window.len() <= max_blocks,
    ensures
        window_after_push(window, max_blocks, summary).last() == window.last(),
{
}

/// Three pushes into an empty window of capacity two leave the third summary
/// at the front and the first at the back: the second one has left.
pub proof fn lemma_three_pushes_into_two(s1: FlowSummary, s2: FlowSummary, s3: FlowSummary)
    ensures
        window_after_push(
            window_after_push(window_after_push(Seq::empty(), 2, s1), 2, s2),
            2,
            s3,
        ) == seq![s3, s1],
{
    let w1 = window_after_push(Seq::empty(), 2, s1);
    assert(w1 =~= seq![s1]);
    let w2 = window_after_push(w1, 2, s2);
    assert(w2 =~= seq![s2, s1]);
    let w3 = window_after_push(w2, 2, s3);
    assert(w3 =~= seq![s3, s1]);
}

/// Where one category alone has a threshold, a change of that category that
/// reaches the threshold raises exactly one alert, of level one and with the
/// number of the block; any other change raises none.
pub proof fn lemma_alerts_of_one_threshold(
    deltas: Map<TxCategory, Wei>,
    category: TxCategory,
    threshold: Wei,
    block_number: u64,
)
    ensures
        ({
            let thresholds = Map::<TxCategory, Wei>::empty().insert(category, threshold);
            let alerts = alerts_of(deltas, thresholds, block_number);
            if deltas.contains_key(category) && deltas[category] >= threshold {
                &&& alerts.len() == 1
                &&& alerts[0].level == 1
                &&& alerts[0].affected_category == category
                &&& alerts[0].delta_wei == deltas[category]
                &&& alerts[0].block_number == block_number
                &&& alerts[0].reason == alert_reason(category)
            } else {
                alerts.len() == 0
            }
        }),
{
    let thresholds = Map::<TxCategory, Wei>::empty().insert(category, threshold);
    assert forall|c: TxCategory| c != category implies alerts_of_category(
        deltas,
        thresholds,
        block_number,
        c,
    ) =~= Seq::<AlertView>::empty() by {}
}

/// With an empty window a push gives no change and raises no alert.
pub proof fn lemma_first_push_is_silent(
    summary: FlowSummary,
    thresholds: Map<TxCategory, Wei>,
)
    ensures
        delta_against(Seq::empty(), summary) is None,
        alerts_for(delta_against(Seq::empty(), summary), thresholds, summary.block_number).len()
            == 0,
{
}

/// The mean over a window of two entries is half the sum of their two totals,
/// rounded down; the sum is capped.
pub proof fn lemma_mean_of_two(first: FlowSummary, second: FlowSummary, category: TxCategory)
    ensures
        window_mean(seq![first, second], category) == capped(
            amount_of(first.category_totals@, category) + amount_of(
                second.category_totals@,
                category,
            ),
        ) / 2,
{
    let window = seq![first, second];
    assert(window.drop_last() =~= seq![first]);
    assert(seq![first].drop_last() =~= Seq::<FlowSummary>::empty());
    reveal_with_fuel(window_total, 3);
}

/// What a push into a window that is not empty raises where one category
/// alone has a threshold: exactly one alert, of level one and with the number
/// of the new block, where the summary holds the category and its total, added
/// to the total of the entry at the back, reaches the threshold; otherwise none.
pub proof fn lemma_alerts_of_push(
    window: Seq<FlowSummary>,
    summary: FlowSummary,
    category: TxCategory,
    threshold: Wei,
)
    requires
        window.len() > 0,
    ensures
        ({
            let thresholds = Map::<TxCategory, Wei>::empty().insert(category, threshold);
            let alerts = alerts_for(
                delta_against(window, summary),
                thresholds,
                summary.block_number,
            );
            let totals = summary.category_totals@;
            let sum = capped_sum(
                totals[category],
                amount_of(window.last().category_totals@, category),
            );
            if totals.contains_key(category) && sum >= threshold {
                &&& alerts.len() == 1
                &&& alerts[0].level == 1
                &&& alerts[0].affected_category == category
                &&& alerts[0].delta_wei == sum
                &&& alerts[0].block_number == summary.block_number
            } else {
                alerts.len() == 0
            }
        }),
{
    let deltas = delta_amounts(summary.category_totals@, window.last().category_totals@);
    lemma_view_of_amounts(deltas);
    lemma_alerts_of_one_threshold(deltas, category, threshold, summary.block_number);
}

} // verus!
