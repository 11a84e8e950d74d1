//! The taxonomy of counterparties and amounts kept per category.

use vstd::prelude::*;

verus! {

/// Amounts are counted in wei.
pub type Wei = u128;

/// How a transaction relates to the set of known counterparties.
#[derive(Debug, Clone, Copy, PartialEq, Eq, Hash, Structural)]
pub enum TxCategory {
    Domestic,
    Bridge,
    Foreign,
    Unknown,
}

/// The label of a category, as it is written in reports and records.
pub open spec fn category_label(category: TxCategory) -> Seq<char> {
    match category {
        TxCategory::Domestic => "Domestic"@,
        TxCategory::Bridge => "Bridge"@,
        TxCategory::Foreign => "Foreign"@,
        TxCategory::Unknown => "Unknown"@,
    }
}

/// The category that a label stands for, if it is the label of one.
pub open spec fn category_named(label: Seq<char>) -> Option<TxCategory> {
    if label == "Domestic"@ {
        Some(TxCategory::Domestic)
    } else if label == "Bridge"@ {
        Some(TxCategory::Bridge)
    } else if label == "Foreign"@ {
        Some(TxCategory::Foreign)
    } else if label == "Unknown"@ {
        Some(TxCategory::Unknown)
    } else {
        None
    }
}

/// Each category is the one that its label stands for.
pub proof fn lemma_label_names_its_category(category: TxCategory)
    ensures
        category_named(category_label(category)) == Some(category),
{
    reveal_strlit("Domestic");
    reveal_strlit("Bridge");
    reveal_strlit("Foreign");
    reveal_strlit("Unknown");
    assert("Domestic"@.len() == 8);
    assert("Bridge"@.len() == 6);
    assert("Foreign"@[0] == 'F');
    assert("Unknown"@[0] == 'U');
}

/// The text that a category is shown as. The domestic category is spelled
/// `Domestice` here, unlike its label.
pub open spec fn category_text(category: TxCategory) -> Seq<char> {
    match category {
        TxCategory::Foreign => "Foreign"@,
        TxCategory::Bridge => "Bridge"@,
        TxCategory::Domestic => "Domestice"@,
        TxCategory::Unknown => "Unknown"@,
    }
}

impl TxCategory {
    /// The text that this category is shown as.
    pub fn to_string(&self) -> (text: String)
        ensures
            text@ == category_text(*self),
    {
        match self {
            TxCategory::Foreign => "Foreign".to_owned(),
            TxCategory::Bridge => "Bridge".to_owned(),
            TxCategory::Domestic => "Domestice".to_owned(),
            TxCategory::Unknown => "Unknown".to_owned(),
        }
    }

    /// The category that `label` stands for, if it is the label of one.
    pub fn from_name(label: &str) -> (category: Option<TxCategory>)
        ensures
            category == category_named(label@),
    {
        let label = label.to_owned();
        if label == "Domestic".to_owned() {
            Some(TxCategory::Domestic)
        } else if label == "Bridge".to_owned() {
            Some(TxCategory::Bridge)
        } else if label == "Foreign".to_owned() {
            Some(TxCategory::Foreign)
        } else if label == "Unknown".to_owned() {
            Some(TxCategory::Unknown)
        } else {
            None
        }
    }

    /// The label of this category.
    pub fn name(&self) -> (label: &'static str)
        ensures
            label@ == category_label(*self),
    {
        match self {
            TxCategory::Domestic => "Domestic",
            TxCategory::Bridge => "Bridge",
            TxCategory::Foreign => "Foreign",
            TxCategory::Unknown => "Unknown",
        }
    }
}

/// The amount kept for `category` in `amounts`; a category that is absent counts as zero.
pub open spec fn amount_of(amounts: Map<TxCategory, Wei>, category: TxCategory) -> Wei {
    if amounts.contains_key(category) {
        amounts[category]
    } else {
        0
    }
}

/// A number as an amount: itself, or the largest amount that can be
/// represented where it is beyond that.
pub open spec fn capped(n: int) -> Wei {
    if n > Wei::MAX {
        Wei::MAX
    } else {
        n as Wei
    }
}

/// The sum of two amounts, capped at the largest amount that can be represented.
pub open spec fn capped_sum(a: Wei, b: Wei) -> Wei {
    capped(a + b)
}

/// One amount for each category that has been observed.
///
/// Its view is the map from each observed category to its amount.
#[derive(Debug, Clone, Copy, PartialEq, Eq)]
pub struct CategoryAmounts {
    domestic: Option<Wei>,
    bridge: Option<Wei>,
    foreign: Option<Wei>,
    unknown: Option<Wei>,
}

impl View for CategoryAmounts {
    type V = Map<TxCategory, Wei>;

    closed spec fn view(&self) -> Map<TxCategory, Wei> {
        Map::new(
            |c: TxCategory| self.slot(c) is Some,
            |c: TxCategory| self.slot(c)->0,
        )
    }
}

/// The amounts whose view is `amounts`.
pub closed spec fn amounts_with_view(amounts: Map<TxCategory, Wei>) -> CategoryAmounts {
    CategoryAmounts {
        domestic: entry_of(amounts, TxCategory::Domestic),
        bridge: entry_of(amounts, TxCategory::Bridge),
        foreign: entry_of(amounts, TxCategory::Foreign),
        unknown: entry_of(amounts, TxCategory::Unknown),
    }
}

spec fn entry_of(amounts: Map<TxCategory, Wei>, category: TxCategory) -> Option<Wei> {
    if amounts.contains_key(category) {
        Some(amounts[category])
    } else {
        None
    }
}

/// `amounts_with_view` gives back the value that a view was taken of.
pub proof fn lemma_amounts_with_view(amounts: CategoryAmounts)
    ensures
        amounts_with_view(amounts@) == amounts,
{
    assert(amounts@.dom().contains(TxCategory::Domestic) == (amounts.domestic is Some));
    assert(amounts@.dom().contains(TxCategory::Bridge) == (amounts.bridge is Some));
    assert(amounts@.dom().contains(TxCategory::Foreign) == (amounts.foreign is Some));
    assert(amounts@.dom().contains(TxCategory::Unknown) == (amounts.unknown is Some));
}

/// The view of `amounts_with_view(m)` is `m`.
pub proof fn lemma_view_of_amounts(amounts: Map<TxCategory, Wei>)
    ensures
        amounts_with_view(amounts)@ == amounts,
{
    let a = amounts_with_view(amounts);
    assert forall|c: TxCategory| a.slot(c) == entry_of(amounts, c) by {}
    assert(a@ =~= amounts);
}

/// The one entry of `category`, where `amounts` holds the category.
pub open spec fn entry_list(amounts: Map<TxCategory, Wei>, category: TxCategory) -> Seq<
    (TxCategory, Wei),
> {
    if amounts.contains_key(category) {
        seq![(category, amounts[category])]
    } else {
        Seq::empty()
    }
}

/// The entries of `amounts`, in the order in which the categories are declared.
pub open spec fn entries_of(amounts: Map<TxCategory, Wei>) -> Seq<(TxCategory, Wei)> {
    entry_list(amounts, TxCategory::Domestic) + entry_list(amounts, TxCategory::Bridge)
        + entry_list(amounts, TxCategory::Foreign) + entry_list(amounts, TxCategory::Unknown)
}

/// The amounts that a list of entries stands for; of two entries for one
/// category the later one counts.
pub open spec fn amounts_of(entries: Seq<(TxCategory, Wei)>) -> Map<TxCategory, Wei>
    decreases entries.len(),
{
    if entries.len() == 0 {
        Map::empty()
    } else {
        amounts_of(entries.drop_last()).insert(entries.last().0, entries.last().1)
    }
}

/// Amounts that are taken apart into entries and put together again are the
/// same amounts: nothing of a total is lost on the way, however large it is.
pub proof fn lemma_entries_keep_amounts(amounts: Map<TxCategory, Wei>)
    ensures
        amounts_of(entries_of(amounts)) == amounts,
{
    let d = entry_list(amounts, TxCategory::Domestic);
    let b = entry_list(amounts, TxCategory::Bridge);
    let f = entry_list(amounts, TxCategory::Foreign);
    let u = entry_list(amounts, TxCategory::Unknown);
    lemma_amounts_of_append(Seq::empty(), amounts, TxCategory::Domestic);
    assert(Seq::<(TxCategory, Wei)>::empty() + d =~= d);
    lemma_amounts_of_append(d, amounts, TxCategory::Bridge);
    lemma_amounts_of_append(d + b, amounts, TxCategory::Foreign);
    lemma_amounts_of_append(d + b + f, amounts, TxCategory::Unknown);
    let all = amounts_of(entries_of(amounts));
    assert forall|c: TxCategory| all.contains_key(c) == amounts.contains_key(c) by {}
    assert(all =~= amounts);
}

proof fn lemma_amounts_of_append(
    entries: Seq<(TxCategory, Wei)>,
    amounts: Map<TxCategory, Wei>,
    category: TxCategory,
)
    ensures
        amounts_of(entries + entry_list(amounts, category)) == (if amounts.contains_key(
            category,
        ) {
            amounts_of(entries).insert(category, amounts[category])
        } else {
            amounts_of(entries)
        }),
{
    let one = entry_list(amounts, category);
    if amounts.contains_key(category) {
        assert((entries + one).drop_last() =~= entries);
        assert((entries + one).last() == (category, amounts[category]));
    } else {
        assert(entries + one =~= entries);
    }
}

impl CategoryAmounts {
    spec fn slot(&self, category: TxCategory) -> Option<Wei> {
        match category {
            TxCategory::Domestic => self.domestic,
            TxCategory::Bridge => self.bridge,
            TxCategory::Foreign => self.foreign,
            TxCategory::Unknown => self.unknown,
        }
    }

    /// No category observed.
    pub fn new() -> (amounts: Self)
        ensures
            amounts@ == Map::<TxCategory, Wei>::empty(),
    {
        let amounts = CategoryAmounts { domestic: None, bridge: None, foreign: None, unknown: None };
        assert(amounts@ =~= Map::<TxCategory, Wei>::empty());
        amounts
    }

    /// The amount of `category`, if it has been observed.
    pub fn get(&self, category: TxCategory) -> (amount: Option<Wei>)
        ensures
            amount == (if self@.contains_key(category) {
                Some(self@[category])
            } else {
                None
            }),
    {
        match category {
            TxCategory::Domestic => self.domestic,
            TxCategory::Bridge => self.bridge,
            TxCategory::Foreign => self.foreign,
            TxCategory::Unknown => self.unknown,
        }
    }

    /// The amount of `category`, zero if it has not been observed.
    pub fn amount(&self, category: TxCategory) -> (amount: Wei)
        ensures
            amount == amount_of(self@, category),
    {
        match self.get(category) {
            Some(amount) => amount,
            None => 0,
        }
    }

    /// Sets the amount of `category`.
    pub fn insert(&mut self, category: TxCategory, amount: Wei)
        ensures
            final(self)@ == old(self)@.insert(category, amount),
    {
        match category {
            TxCategory::Domestic => {
                self.domestic = Some(amount);
            },
            TxCategory::Bridge => {
                self.bridge = Some(amount);
            },
            TxCategory::Foreign => {
                self.foreign = Some(amount);
            },
            TxCategory::Unknown => {
                self.unknown = Some(amount);
            },
        }
        assert(self@ =~= old(self)@.insert(category, amount));
    }

    /// The entries, in the order in which the categories are declared.
    pub fn entries(&self) -> (entries: Vec<(TxCategory, Wei)>)
        ensures
            entries@ == entries_of(self@),
    {
        let mut entries: Vec<(TxCategory, Wei)> = Vec::new();
        self.list_entry(TxCategory::Domestic, &mut entries);
        self.list_entry(TxCategory::Bridge, &mut entries);
        self.list_entry(TxCategory::Foreign, &mut entries);
        self.list_entry(TxCategory::Unknown, &mut entries);
        proof {
            assert(Seq::<(TxCategory, Wei)>::empty() + entry_list(self@, TxCategory::Domestic)
                =~= entry_list(self@, TxCategory::Domestic));
        }
        entries
    }

    fn list_entry(&self, category: TxCategory, entries: &mut Vec<(TxCategory, Wei)>)
        ensures
            final(entries)@ == old(entries)@ + entry_list(self@, category),
    {
        match self.get(category) {
            Some(amount) => {
                entries.push((category, amount));
                assert(entries@ =~= old(entries)@ + entry_list(self@, category));
            },
            None => {
                assert(entries@ =~= old(entries)@ + entry_list(self@, category));
            },
        }
    }

    /// The amounts that a list of entries stands for.
    pub fn from_entries(entries: &Vec<(TxCategory, Wei)>) -> (amounts: Self)
        ensures
            amounts@ == amounts_of(entries@),
    {
        let mut amounts = CategoryAmounts::new();
        let mut i: usize = 0;
        while i < entries.len()
            invariant
                i <= entries.len(),
                amounts@ == amounts_of(entries@.take(i as int)),
            decreases entries.len() - i,
        {
            proof {
                assert(entries@.take(i + 1).drop_last() =~= entries@.take(i as int));
            }
            amounts.insert(entries[i].0, entries[i].1);
            i = i + 1;
        }
        proof {
            assert(entries@.take(entries.len() as int) =~= entries@);
        }
        amounts
    }

    /// Adds `amount` to what is kept for `category`; the sum is capped, it never wraps.
    pub fn add(&mut self, category: TxCategory, amount: Wei)
        ensures
            final(self)@ == old(self)@.insert(
                category,
                capped_sum(amount_of(old(self)@, category), amount),
            ),
    {
        let sum = self.amount(category).saturating_add(amount);
        self.insert(category, sum);
    }
}

} // verus!
