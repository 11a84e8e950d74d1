//! The registry of known counterparty addresses.

use vstd::prelude::*;
use crate::ascii::{
    ascii_lowercase, lemma_lowercase_idempotent, lemma_same_as_lowercase, same_ignoring_case,
};
use crate::category::TxCategory;

verus! {

/// The label under which an address is filed once a classification has shown its role.
pub const LEARNED_LABEL: &'static str = "unknown";

/// The addresses filed under one label, in the order in which they came.
#[derive(Debug, PartialEq, Eq)]
pub struct LabelEntry {
    pub label: String,
    pub addresses: Vec<String>,
}

/// The texts of a list of strings.
pub open spec fn texts(strings: Seq<String>) -> Seq<Seq<char>> {
    strings.map_values(|s: String| s@)
}

/// The addresses that `book` files under `label`; none where it has no such label.
pub open spec fn filed_under(book: Map<Seq<char>, Seq<Seq<char>>>, label: Seq<char>) -> Seq<
    Seq<char>,
> {
    if book.contains_key(label) {
        book[label]
    } else {
        Seq::empty()
    }
}

/// Whether `book` files `address` at the place `i` under `label`, the case of
/// ASCII letters set aside.
pub open spec fn files_at(
    book: Map<Seq<char>, Seq<Seq<char>>>,
    label: Seq<char>,
    i: int,
    address: Seq<char>,
) -> bool {
    &&& book.contains_key(label)
    &&& 0 <= i < book[label].len()
    &&& same_ignoring_case(book[label][i], address)
}

/// Whether `address` stands under any label of `book`, the case of ASCII
/// letters set aside.
pub open spec fn knows(book: Map<Seq<char>, Seq<Seq<char>>>, address: Seq<char>) -> bool {
    exists|label: Seq<char>, i: int| files_at(book, label, i, address)
}

/// A list of entries as plain values: each label with its addresses.
pub open spec fn entry_views(entries: Seq<LabelEntry>) -> Seq<(Seq<char>, Seq<Seq<char>>)> {
    entries.map_values(|entry: LabelEntry| (entry.label@, texts(entry.addresses@)))
}

/// The book that a list of entries stands for: each entry files its addresses,
/// in their order, behind what the entries before it have filed under its label.
pub open spec fn book_of(entries: Seq<(Seq<char>, Seq<Seq<char>>)>) -> Map<
    Seq<char>,
    Seq<Seq<char>>,
>
    decreases entries.len(),
{
    if entries.len() == 0 {
        Map::empty()
    } else {
        let before = book_of(entries.drop_last());
        let (label, addresses) = entries.last();
        before.insert(label, filed_under(before, label) + addresses)
    }
}

/// Labels, each with the list of addresses filed under it.
///
/// Its view is the map from each label to its list. A label occurs once; an
/// address may occur any number of times, under one label or several.
#[derive(Debug)]
pub struct AddressBook {
    entries: Vec<LabelEntry>,
}

impl View for AddressBook {
    type V = Map<Seq<char>, Seq<Seq<char>>>;

    closed spec fn view(&self) -> Map<Seq<char>, Seq<Seq<char>>> {
        view_of(self.entries@)
    }
}

/// Whether an entry of `entries` has the label.
spec fn has_label(entries: Seq<LabelEntry>, label: Seq<char>) -> bool {
    exists|i: int| 0 <= i < entries.len() && #[trigger] entries[i].label@ == label
}

/// The place of an entry with the label, where there is one.
spec fn index_of(entries: Seq<LabelEntry>, label: Seq<char>) -> int {
    choose|i: int| 0 <= i < entries.len() && #[trigger] entries[i].label@ == label
}

/// Whether no two entries have the same label.
spec fn distinct_labels(entries: Seq<LabelEntry>) -> bool {
    forall|i: int, j: int|
        0 <= i < entries.len() && 0 <= j < entries.len() && #[trigger] entries[i].label@
            == #[trigger] entries[j].label@ ==> i == j
}

/// Among entries with distinct labels each label is found at its own place.
proof fn lemma_index_of(entries: Seq<LabelEntry>, i: int)
    requires
        distinct_labels(entries),
        0 <= i < entries.len(),
    ensures
        has_label(entries, entries[i].label@),
        index_of(entries, entries[i].label@) == i,
{
}

/// The map from each label of `entries` to the addresses of its entry.
spec fn view_of(entries: Seq<LabelEntry>) -> Map<Seq<char>, Seq<Seq<char>>> {
    Map::new(
        |label: Seq<char>| has_label(entries, label),
        |label: Seq<char>| texts(entries[index_of(entries, label)].addresses@),
    )
}

/// One more address at the end of the entry at `i` is one more address at the
/// end of the list of its label.
proof fn lemma_pushed_under(
    before: Seq<LabelEntry>,
    after: Seq<LabelEntry>,
    i: int,
    address: Seq<char>,
)
    requires
        distinct_labels(before),
        0 <= i < before.len(),
        after.len() == before.len(),
        after[i].label@ == before[i].label@,
        texts(after[i].addresses@) == texts(before[i].addresses@).push(address),
        forall|e: int| 0 <= e < before.len() && e != i ==> after[e] == before[e],
    ensures
        distinct_labels(after),
        view_of(after) == view_of(before).insert(
            before[i].label@,
            filed_under(view_of(before), before[i].label@).push(address),
        ),
{
    let label = before[i].label@;
    assert forall|a: int, b: int|
        0 <= a < after.len() && 0 <= b < after.len() && #[trigger] after[a].label@
            == #[trigger] after[b].label@ implies a == b by {
        assert(after[a].label@ == before[a].label@);
        assert(after[b].label@ == before[b].label@);
    }
    lemma_index_of(before, i);
    lemma_index_of(after, i);
    let expected = view_of(before).insert(label, filed_under(view_of(before), label).push(address));
    assert forall|l: Seq<char>| has_label(after, l) == has_label(before, l) by {
        if has_label(after, l) {
            let e = index_of(after, l);
            assert(before[e].label@ == l);
        }
        if has_label(before, l) {
            let e = index_of(before, l);
            assert(after[e].label@ == l);
        }
    }
    assert forall|l: Seq<char>| has_label(after, l) implies view_of(after)[l] == expected[l] by {
        let e = index_of(after, l);
        assert(before[e].label@ == l);
        lemma_index_of(before, e);
        lemma_index_of(after, e);
    }
    assert(view_of(after) =~= expected);
}

/// One more entry, with a label that was not there, is one more label with the
/// list of that entry.
proof fn lemma_appended(before: Seq<LabelEntry>, after: Seq<LabelEntry>)
    requires
        distinct_labels(before),
        after.len() == before.len() + 1,
        after.drop_last() == before,
        !has_label(before, after.last().label@),
    ensures
        distinct_labels(after),
        view_of(after) == view_of(before).insert(
            after.last().label@,
            texts(after.last().addresses@),
        ),
        !view_of(before).contains_key(after.last().label@),
{
    let n = before.len() as int;
    let label = after[n].label@;
    assert forall|e: int| 0 <= e < n implies after[e] == before[e] by {
        assert(after.drop_last()[e] == after[e]);
    }
    assert forall|a: int, b: int|
        0 <= a < after.len() && 0 <= b < after.len() && #[trigger] after[a].label@
            == #[trigger] after[b].label@ implies a == b by {
        if a < n && b < n {
            assert(before[a].label@ == before[b].label@);
        } else if a < n {
            assert(before[a].label@ == label);
        } else if b < n {
            assert(before[b].label@ == label);
        }
    }
    let expected = view_of(before).insert(label, texts(after[n].addresses@));
    assert forall|l: Seq<char>| has_label(after, l) == (has_label(before, l) || l == label) by {
        if has_label(after, l) {
            let e = index_of(after, l);
            if e < n {
                assert(before[e].label@ == l);
            }
        }
        if has_label(before, l) {
            let e = index_of(before, l);
            assert(after[e].label@ == l);
        }
        if l == label {
            assert(after[n].label@ == l);
        }
    }
    assert forall|l: Seq<char>| has_label(after, l) implies view_of(after)[l] == expected[l] by {
        let e = index_of(after, l);
        lemma_index_of(after, e);
        if e < n {
            assert(before[e].label@ == l);
            lemma_index_of(before, e);
        }
    }
    assert(view_of(after) =~= expected);
}

/// Entries with distinct labels stand for the book that maps each label to
/// the addresses of its entry.
proof fn lemma_book_of_distinct(entries: Seq<LabelEntry>)
    requires
        distinct_labels(entries),
    ensures
        book_of(entry_views(entries)) == view_of(entries),
    decreases entries.len(),
{
    if entries.len() == 0 {
        assert(view_of(entries) =~= Map::<Seq<char>, Seq<Seq<char>>>::empty());
    } else {
        let before = entries.drop_last();
        let n = before.len() as int;
        assert forall|a: int, b: int|
            0 <= a < before.len() && 0 <= b < before.len() && #[trigger] before[a].label@
                == #[trigger] before[b].label@ implies a == b by {
            assert(entries[a].label@ == entries[b].label@);
        }
        if has_label(before, entries[n].label@) {
            let e = index_of(before, entries[n].label@);
            assert(entries[e].label@ == entries[n].label@);
        }
        lemma_book_of_distinct(before);
        lemma_appended(before, entries);
        assert(entry_views(entries).drop_last() =~= entry_views(before));
        let list = texts(entries[n].addresses@);
        assert(Seq::<Seq<char>>::empty() + list =~= list);
    }
}

/// A copy of a list of strings.
fn copy_of(strings: &Vec<String>) -> (out: Vec<String>)
    ensures
        out@ == strings@,
{
    let mut out: Vec<String> = Vec::new();
    let mut i: usize = 0;
    while i < strings.len()
        invariant
            i <= strings.len(),
            out@ == strings@.take(i as int),
        decreases strings.len() - i,
    {
        out.push(strings[i].clone());
        proof {
            assert(out@ =~= strings@.take(i + 1));
        }
        i = i + 1;
    }
    proof {
        assert(strings@.take(strings.len() as int) =~= strings@);
    }
    out
}

/// The place of `label` among `entries`, if it is there.
fn position(entries: &Vec<LabelEntry>, label: &String) -> (place: Option<usize>)
    ensures
        place matches Some(i) ==> i < entries@.len() && entries@[i as int].label@ == label@,
        place is None ==> !has_label(entries@, label@),
{
    let mut i: usize = 0;
    while i < entries.len()
        invariant
            i <= entries.len(),
            forall|e: int| 0 <= e < i ==> #[trigger] entries@[e].label@ != label@,
        decreases entries.len() - i,
    {
        if entries[i].label == *label {
            return Some(i);
        }
        i = i + 1;
    }
    None
}

/// Files `address` at the end of the list of `label`, which comes into
/// `entries` where it is not there yet.
fn file(entries: &mut Vec<LabelEntry>, label: &str, address: &str)
    requires
        distinct_labels(old(entries)@),
    ensures
        distinct_labels(final(entries)@),
        view_of(final(entries)@) == view_of(old(entries)@).insert(
            label@,
            filed_under(view_of(old(entries)@), label@).push(address@),
        ),
{
    let owned_label = label.to_owned();
    let owned_address = address.to_owned();
    match position(entries, &owned_label) {
        Some(i) => {
            entries[i].addresses.push(owned_address);
            proof {
                let before = old(entries)@;
                let after = entries@;
                assert(texts(after[i as int].addresses@) =~= texts(
                    before[i as int].addresses@,
                ).push(address@));
                lemma_pushed_under(before, after, i as int, address@);
            }
        },
        None => {
            let mut addresses: Vec<String> = Vec::new();
            addresses.push(owned_address);
            entries.push(LabelEntry { label: owned_label, addresses });
            proof {
                let before = old(entries)@;
                let after = entries@;
                assert(after.drop_last() =~= before);
                assert(texts(after.last().addresses@) =~= Seq::<Seq<char>>::empty().push(
                    address@,
                ));
                lemma_appended(before, after);
            }
        },
    }
}

/// Files `addresses`, in their order, at the end of the list of `label`, which
/// comes into `entries` where it is not there yet.
fn file_all(entries: &mut Vec<LabelEntry>, label: &str, addresses: &Vec<String>)
    requires
        distinct_labels(old(entries)@),
    ensures
        distinct_labels(final(entries)@),
        view_of(final(entries)@) == view_of(old(entries)@).insert(
            label@,
            filed_under(view_of(old(entries)@), label@) + texts(addresses@),
        ),
{
    let ghost start = view_of(entries@);
    let ghost list = filed_under(start, label@);
    let owned_label = label.to_owned();
    match position(entries, &owned_label) {
        Some(i) => {
            proof {
                lemma_index_of(entries@, i as int);
                assert(start =~= start.insert(label@, list));
            }
        },
        None => {
            entries.push(LabelEntry { label: owned_label, addresses: Vec::new() });
            proof {
                let before = old(entries)@;
                let after = entries@;
                assert(after.drop_last() =~= before);
                assert(texts(after.last().addresses@) =~= Seq::<Seq<char>>::empty());
                lemma_appended(before, after);
            }
        },
    }
    let mut i: usize = 0;
    proof {
        assert(list + texts(addresses@.take(0)) =~= list);
    }
    while i < addresses.len()
        invariant
            i <= addresses.len(),
            distinct_labels(entries@),
            start == view_of(old(entries)@),
            list == filed_under(start, label@),
            view_of(entries@) == start.insert(label@, list + texts(addresses@.take(i as int))),
        decreases addresses.len() - i,
    {
        let ghost current = view_of(entries@);
        file(entries, label, addresses[i].as_str());
        proof {
            let upto = list + texts(addresses@.take(i as int));
            assert(filed_under(current, label@) == upto);
            assert(upto.push(addresses@[i as int]@) =~= list + texts(addresses@.take(i + 1)));
            assert(view_of(entries@) =~= start.insert(
                label@,
                list + texts(addresses@.take(i + 1)),
            ));
        }
        i = i + 1;
    }
    proof {
        assert(addresses@.take(addresses.len() as int) =~= addresses@);
    }
}

impl AddressBook {
    /// No label occurs twice.
    #[verifier::type_invariant]
    spec fn labels_occur_once(&self) -> bool {
        distinct_labels(self.entries@)
    }

    /// A book without labels.
    pub fn new() -> (book: Self)
        ensures
            book@ == Map::<Seq<char>, Seq<Seq<char>>>::empty(),
    {
        let book = AddressBook { entries: Vec::new() };
        assert(book@ =~= Map::<Seq<char>, Seq<Seq<char>>>::empty());
        book
    }

    /// Files `address` at the end of the list of `label`; a label that the book
    /// does not have yet comes into it. An address that is already there is
    /// filed once more.
    pub fn push(&mut self, label: &str, address: &str)
        ensures
            final(self)@ == old(self)@.insert(
                label@,
                filed_under(old(self)@, label@).push(address@),
            ),
    {
        proof {
            use_type_invariant(&*self);
        }
        let mut entries: Vec<LabelEntry> = Vec::new();
        core::mem::swap(&mut self.entries, &mut entries);
        file(&mut entries, label, address);
        self.entries = entries;
    }

    /// Files `addresses`, in their order, at the end of the list of `label`. A
    /// label that the book does not have yet comes into it, also where there is
    /// no address to file.
    pub fn extend(&mut self, label: &str, addresses: &Vec<String>)
        ensures
            final(self)@ == old(self)@.insert(
                label@,
                filed_under(old(self)@, label@) + texts(addresses@),
            ),
    {
        proof {
            use_type_invariant(&*self);
        }
        let mut entries: Vec<LabelEntry> = Vec::new();
        core::mem::swap(&mut self.entries, &mut entries);
        file_all(&mut entries, label, addresses);
        self.entries = entries;
    }

    /// The book that a list of entries stands for.
    pub fn from_entries(entries: &Vec<LabelEntry>) -> (book: Self)
        ensures
            book@ == book_of(entry_views(entries@)),
    {
        let mut book = AddressBook::new();
        let mut i: usize = 0;
        let ghost all = entry_views(entries@);
        while i < entries.len()
            invariant
                i <= entries.len(),
                all == entry_views(entries@),
                book@ == book_of(all.take(i as int)),
            decreases entries.len() - i,
        {
            proof {
                assert(all.take(i + 1).drop_last() =~= all.take(i as int));
            }
            book.extend(entries[i].label.as_str(), &entries[i].addresses);
            i = i + 1;
        }
        proof {
            assert(all.take(entries.len() as int) =~= all);
        }
        book
    }

    /// A copy of the labels with their lists. Each label of the book occurs
    /// once, with the list that the book files under it, so that the entries
    /// stand for this book again.
    pub fn entries(&self) -> (out: Vec<LabelEntry>)
        ensures
            book_of(entry_views(out@)) == self@,
            forall|i: int, j: int|
                0 <= i < out@.len() && 0 <= j < out@.len() && #[trigger] out@[i].label@
                    == #[trigger] out@[j].label@ ==> i == j,
    {
        proof {
            use_type_invariant(self);
        }
        let mut out: Vec<LabelEntry> = Vec::new();
        let mut i: usize = 0;
        while i < self.entries.len()
            invariant
                i <= self.entries.len(),
                out@.len() == i,
                forall|e: int|
                    0 <= e < i ==> (#[trigger] out@[e]).label@ == self.entries@[e].label@ && texts(
                        out@[e].addresses@,
                    ) == texts(self.entries@[e].addresses@),
            decreases self.entries.len() - i,
        {
            let entry = &self.entries[i];
            let addresses = copy_of(&entry.addresses);
            out.push(LabelEntry { label: entry.label.clone(), addresses });
            i = i + 1;
        }
        proof {
            assert forall|a: int, b: int|
                0 <= a < out@.len() && 0 <= b < out@.len() && #[trigger] out@[a].label@
                    == #[trigger] out@[b].label@ implies a == b by {
                assert(self.entries@[a].label@ == self.entries@[b].label@);
            }
            lemma_book_of_distinct(out@);
            lemma_book_of_distinct(self.entries@);
            assert(entry_views(out@) =~= entry_views(self.entries@));
        }
        out
    }

    /// Whether `address` stands under any label, the case of ASCII letters set aside.
    pub fn is_known(&self, address: &str) -> (known: bool)
        ensures
            known == knows(self@, address@),
    {
        proof {
            use_type_invariant(self);
        }
        let mut i: usize = 0;
        while i < self.entries.len()
            invariant
                i <= self.entries.len(),
                distinct_labels(self.entries@),
                forall|e: int, k: int|
                    0 <= e < i && 0 <= k < self.entries@[e].addresses@.len()
                        ==> !same_ignoring_case(
                        #[trigger] self.entries@[e].addresses@[k]@,
                        address@,
                    ),
            decreases self.entries.len() - i,
        {
            let entry = &self.entries[i];
            let mut j: usize = 0;
            while j < entry.addresses.len()
                invariant
                    j <= entry.addresses.len(),
                    i < self.entries.len(),
                    entry == self.entries@[i as int],
                    distinct_labels(self.entries@),
                    forall|k: int|
                        0 <= k < j ==> !same_ignoring_case(
                            #[trigger] entry.addresses@[k]@,
                            address@,
                        ),
                decreases entry.addresses.len() - j,
            {
                if entry.addresses[j].as_str().eq_ignore_ascii_case(address) {
                    proof {
                        lemma_index_of(self.entries@, i as int);
                        assert(files_at(self@, entry.label@, j as int, address@));
                    }
                    return true;
                }
                j = j + 1;
            }
            i = i + 1;
        }
        proof {
            assert forall|label: Seq<char>, k: int| !files_at(self@, label, k, address@) by {
                if files_at(self@, label, k, address@) {
                    let e = index_of(self.entries@, label);
                    assert(self.entries@[e].addresses@[k]@ == self@[label][k]);
                }
            }
        }
        false
    }
}

/// An address that is filed under a label is known, and so is its lower-case form.
pub proof fn lemma_filed_is_known(
    book: Map<Seq<char>, Seq<Seq<char>>>,
    label: Seq<char>,
    i: int,
)
    requires
        book.contains_key(label),
        0 <= i < book[label].len(),
    ensures
        knows(book, book[label][i]),
        knows(book, ascii_lowercase(book[label][i])),
{
    let address = book[label][i];
    lemma_same_as_lowercase(address);
    assert(files_at(book, label, i, address));
    assert(files_at(book, label, i, ascii_lowercase(address)));
}

/// Whether a book knows an address does not depend on the case of its ASCII letters.
pub proof fn lemma_known_ignoring_case(book: Map<Seq<char>, Seq<Seq<char>>>, address: Seq<char>)
    ensures
        knows(book, ascii_lowercase(address)) == knows(book, address),
{
    lemma_lowercase_idempotent(address);
    if knows(book, address) {
        let (label, i) = choose|label: Seq<char>, i: int| files_at(book, label, i, address);
        assert(files_at(book, label, i, ascii_lowercase(address)));
    }
    if knows(book, ascii_lowercase(address)) {
        let (label, i) = choose|label: Seq<char>, i: int|
            files_at(book, label, i, ascii_lowercase(address));
        assert(files_at(book, label, i, address));
    }
}

/// Filing an address leaves every known address known, and makes known just
/// the addresses that are the same as the new one, the case of ASCII letters
/// set aside.
pub proof fn lemma_known_after_filing(
    book: Map<Seq<char>, Seq<Seq<char>>>,
    label: Seq<char>,
    filed: Seq<char>,
    address: Seq<char>,
)
    ensures
        knows(book.insert(label, filed_under(book, label).push(filed)), address) == (knows(
            book,
            address,
        ) || same_ignoring_case(filed, address)),
{
    let list = filed_under(book, label);
    let after = book.insert(label, list.push(filed));
    if knows(after, address) {
        let (l, i) = choose|l: Seq<char>, i: int| files_at(after, l, i, address);
        if l == label {
            if i < list.len() {
                assert(files_at(book, l, i, address));
            }
        } else {
            assert(files_at(book, l, i, address));
        }
    }
    if knows(book, address) {
        let (l, i) = choose|l: Seq<char>, i: int| files_at(book, l, i, address);
        assert(files_at(after, l, i, address));
    }
    if same_ignoring_case(filed, address) {
        assert(files_at(after, label, list.len() as int, address));
    }
}

/// The registry as plain values: the two maps from label to addresses.
pub ghost struct RegistryView {
    pub cex: Map<Seq<char>, Seq<Seq<char>>>,
    pub bridge: Map<Seq<char>, Seq<Seq<char>>>,
}

impl RegistryView {
    /// Whether `address` is known as an exchange endpoint.
    pub open spec fn known_cex(self, address: Seq<char>) -> bool {
        knows(self.cex, address)
    }

    /// Whether `address` is known as a bridge endpoint.
    pub open spec fn known_bridge(self, address: Seq<char>) -> bool {
        knows(self.bridge, address)
    }

    /// Whether both ends are known as exchange endpoints. There is no set of
    /// domestic addresses apart from that.
    pub open spec fn known_domestic(self, from: Seq<char>, to: Seq<char>) -> bool {
        knows(self.cex, from) && knows(self.cex, to)
    }

    /// The registry after `address` has been filed under `label` as an exchange endpoint.
    pub open spec fn with_cex(self, label: Seq<char>, address: Seq<char>) -> RegistryView {
        RegistryView {
            cex: self.cex.insert(label, filed_under(self.cex, label).push(address)),
            bridge: self.bridge,
        }
    }

    /// The registry after `address` has been filed under `label` as a bridge endpoint.
    pub open spec fn with_bridge(self, label: Seq<char>, address: Seq<char>) -> RegistryView {
        RegistryView {
            cex: self.cex,
            bridge: self.bridge.insert(label, filed_under(self.bridge, label).push(address)),
        }
    }

    /// The registry after it has learned that `address` fell under `category`:
    /// a foreign address is filed as an exchange endpoint and a bridge address
    /// as a bridge endpoint, both under the label for learned addresses. The
    /// other categories teach nothing.
    pub open spec fn learned(self, category: TxCategory, address: Seq<char>) -> RegistryView {
        match category {
            TxCategory::Foreign => self.with_cex(LEARNED_LABEL@, address),
            TxCategory::Bridge => self.with_bridge(LEARNED_LABEL@, address),
            _ => self,
        }
    }
}

/// The known addresses in their two roles: exchange endpoints and bridge endpoints.
#[derive(Debug)]
pub struct Heuristics {
    pub cex: AddressBook,
    pub bridge: AddressBook,
}

impl View for Heuristics {
    type V = RegistryView;

    open spec fn view(&self) -> RegistryView {
        RegistryView { cex: self.cex@, bridge: self.bridge@ }
    }
}

impl Heuristics {
    /// A registry that knows no address.
    pub fn new() -> (registry: Self)
        ensures
            registry@.cex == Map::<Seq<char>, Seq<Seq<char>>>::empty(),
            registry@.bridge == Map::<Seq<char>, Seq<Seq<char>>>::empty(),
    {
        Heuristics { cex: AddressBook::new(), bridge: AddressBook::new() }
    }

    /// Files `address` under `name` as an exchange endpoint.
    pub fn push_cex(&mut self, name: &str, address: &str)
        ensures
            final(self)@ == old(self)@.with_cex(name@, address@),
            final(self).bridge == old(self).bridge,
    {
        self.cex.push(name, address);
    }

    /// Files `address` under `name` as a bridge endpoint.
    pub fn push_bridge(&mut self, name: &str, address: &str)
        ensures
            final(self)@ == old(self)@.with_bridge(name@, address@),
            final(self).cex == old(self).cex,
    {
        self.bridge.push(name, address);
    }

    /// Learns from a classification: see [`RegistryView::learned`].
    pub fn push_by_tx_category(&mut self, category: &TxCategory, address: &str)
        ensures
            final(self)@ == old(self)@.learned(*category, address@),
            *category != TxCategory::Foreign ==> final(self).cex == old(self).cex,
            *category != TxCategory::Bridge ==> final(self).bridge == old(self).bridge,
    {
        match category {
            TxCategory::Foreign => self.push_cex(LEARNED_LABEL, address),
            TxCategory::Bridge => self.push_bridge(LEARNED_LABEL, address),
            _ => {},
        }
    }

    /// Whether `addr` is known as an exchange endpoint.
    pub fn is_known_cex(&self, addr: &str) -> (known: bool)
        ensures
            known == self@.known_cex(addr@),
    {
        self.cex.is_known(addr)
    }

    /// Whether `addr` is known as a bridge endpoint.
    pub fn is_known_bridge(&self, addr: &str) -> (known: bool)
        ensures
            known == self@.known_bridge(addr@),
    {
        self.bridge.is_known(addr)
    }

    /// Whether both `from` and `to` are known as exchange endpoints.
    pub fn is_known_domestic(&self, from: &str, to: &str) -> (known: bool)
        ensures
            known == self@.known_domestic(from@, to@),
    {
        self.is_known_cex(from) && self.is_known_cex(to)
    }
}

impl Default for Heuristics {
    fn default() -> (registry: Self)
        ensures
            registry@.cex == Map::<Seq<char>, Seq<Seq<char>>>::empty(),
            registry@.bridge == Map::<Seq<char>, Seq<Seq<char>>>::empty(),
    {
        Heuristics::new()
    }
}

} // verus!
