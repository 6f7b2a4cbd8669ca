//! The milestone index: a map from milestone title to milestone number.

use crate::text::same_text;
use vstd::prelude::*;

verus! {

/// A named grouping object on the issue tracker.
#[derive(Debug, Clone, PartialEq, Eq)]
pub struct Milestone {
    pub title: String,
    pub number: u64,
}

impl View for Milestone {
    type V = (Seq<char>, u64);

    open spec fn view(&self) -> (Seq<char>, u64) {
        (self.title@, self.number)
    }
}

/// The views of a page of milestones.
pub open spec fn page_view(page: Seq<Milestone>) -> Seq<(Seq<char>, u64)> {
    page.map_values(|m: Milestone| m@)
}

/// The index after the entries of `page` were written to `index` one after
/// the other: of two entries with one title the later one stays.
pub open spec fn merged(index: Map<Seq<char>, u64>, page: Seq<(Seq<char>, u64)>) -> Map<Seq<char>, u64>
    decreases page.len(),
{
    if page.len() == 0 {
        index
    } else {
        merged(index, page.drop_last()).insert(page.last().0, page.last().1)
    }
}

/// The index that holds what was written to an empty index entry by entry.
pub open spec fn index_of(entries: Seq<Milestone>) -> Map<Seq<char>, u64> {
    merged(Map::empty(), page_view(entries))
}

/// The titles of the entries differ from each other.
pub open spec fn distinct_titles(entries: Seq<Milestone>) -> bool {
    forall|i: int, j: int| 0 <= i < j < entries.len() ==> entries[i].title@ != entries[j].title@
}

/// A map from milestone title to milestone number. It holds each title once.
#[derive(Debug)]
pub struct MilestoneIndex {
    entries: Vec<Milestone>,
}

impl View for MilestoneIndex {
    type V = Map<Seq<char>, u64>;

    closed spec fn view(&self) -> Map<Seq<char>, u64> {
        index_of(self.entries@)
    }
}

impl MilestoneIndex {
    /// The index holds no title twice.
    #[verifier::type_invariant]
    spec fn wf(&self) -> bool {
        distinct_titles(self.entries@)
    }

    /// An index without entries.
    pub fn new() -> (index: MilestoneIndex)
        ensures
            index@ == Map::<Seq<char>, u64>::empty(),
    {
        MilestoneIndex { entries: Vec::new() }
    }

    /// The number of titles in the index.
    pub fn len(&self) -> (n: usize)
        ensures
            self@.dom().finite(),
            n == self@.len(),
    {
        proof {
            use_type_invariant(self);
            lemma_entries_model(self.entries@);
        }
        self.entries.len()
    }

    /// The number of the milestone with this title, if the index holds it.
    pub fn get(&self, title: &str) -> (number: Option<u64>)
        ensures
            number == if self@.contains_key(title@) {
                Some(self@[title@])
            } else {
                None
            },
    {
        proof {
            use_type_invariant(self);
            lemma_entries_model(self.entries@);
        }
        let mut i: usize = 0;
        while i < self.entries.len()
            invariant
                i <= self.entries.len(),
                distinct_titles(self.entries@),
                forall|k: int| 0 <= k < i ==> self.entries[k].title@ != title@,
            decreases self.entries.len() - i,
        {
            if same_text(self.entries[i].title.as_str(), title) {
                proof {
                    lemma_entries_model(self.entries@);
                }
                return Some(self.entries[i].number);
            }
            i += 1;
        }
        None
    }

    /// Writes an entry: a title that the index holds gets the new number.
    pub fn insert(&mut self, title: String, number: u64)
        ensures
            final(self)@ == old(self)@.insert(title@, number),
    {
        proof {
            use_type_invariant(&*self);
        }
        let mut entries: Vec<Milestone> = Vec::new();
        core::mem::swap(&mut self.entries, &mut entries);
        put(&mut entries, title, number);
        core::mem::swap(&mut self.entries, &mut entries);
    }

    /// Writes the entries of a page in their order.
    pub fn extend(&mut self, page: Vec<Milestone>)
        ensures
            final(self)@ == merged(old(self)@, page_view(page@)),
    {
        let ghost all = page_view(page@);
        let mut i: usize = 0;
        assert(all.take(0) =~= Seq::<(Seq<char>, u64)>::empty());
        while i < page.len()
            invariant
                i <= page.len(),
                all == page_view(page@),
                self@ == merged(old(self)@, all.take(i as int)),
            decreases page.len() - i,
        {
            let title = page[i].title.clone();
            let number = page[i].number;
            self.insert(title, number);
            proof {
                let next = all.take(i + 1);
                assert(next.drop_last() =~= all.take(i as int));
                assert(next.last() == all[i as int]);
                assert(all[i as int] == page@[i as int]@);
            }
            i += 1;
        }
        assert(all.take(page.len() as int) =~= all);
    }
}

/// Writes an entry to entries with distinct titles: the entry of the title
/// gets the new number, or a new entry is added at the end.
fn put(entries: &mut Vec<Milestone>, title: String, number: u64)
    requires
        distinct_titles(old(entries)@),
    ensures
        distinct_titles(final(entries)@),
        index_of(final(entries)@) == index_of(old(entries)@).insert(title@, number),
{
    let ghost before = entries@;
    let mut i: usize = 0;
    while i < entries.len()
        invariant
            i <= entries.len(),
            entries@ == before,
            before == old(entries)@,
            distinct_titles(before),
            forall|k: int| 0 <= k < i ==> before[k].title@ != title@,
        decreases entries.len() - i,
    {
        if same_text(entries[i].title.as_str(), title.as_str()) {
            entries.set(i, Milestone { title, number });
            proof {
                let after = entries@;
                assert(distinct_titles(after)) by {
                    assert forall|p: int, q: int| 0 <= p < q < after.len() implies after[p].title@
                        != after[q].title@ by {
                        assert(after[p].title@ == before[p].title@);
                        assert(after[q].title@ == before[q].title@);
                    }
                }
                lemma_entries_model(before);
                lemma_entries_model(after);
                let m0 = index_of(before).insert(title@, number);
                let m1 = index_of(after);
                assert forall|t: Seq<char>| m1.contains_key(t) <==> m0.contains_key(t) by {
                    if m1.contains_key(t) {
                        let k = choose|k: int| 0 <= k < after.len() && after[k].title@ == t;
                        assert(before[k].title@ == t);
                    }
                    if index_of(before).contains_key(t) {
                        let k = choose|k: int| 0 <= k < before.len() && before[k].title@ == t;
                        assert(after[k].title@ == t);
                    }
                    if t == title@ {
                        assert(after[i as int].title@ == t);
                    }
                }
                assert forall|t: Seq<char>| m1.contains_key(t) implies m1[t] == m0[t] by {
                    let k = choose|k: int| 0 <= k < after.len() && after[k].title@ == t;
                    if k != i {
                        assert(before[k] == after[k]);
                        assert(before[k].title@ != before[i as int].title@);
                    }
                }
                assert(m1 =~= m0);
            }
            return ;
        }
        i += 1;
    }
    entries.push(Milestone { title, number });
    proof {
        let after = entries@;
        assert(page_view(after).drop_last() =~= page_view(before));
        assert forall|p: int, q: int| 0 <= p < q < after.len() implies after[p].title@ != after[q].title@ by {
            assert(after[p] == before[p]);
            if q < before.len() {
                assert(after[q] == before[q]);
            }
        }
    }
}

/// How far the milestone listing was read.
pub struct Listing {
    /// The index of the milestones that were read.
    pub index: Map<Seq<char>, u64>,
    /// The number of the page that is asked for next. Pages count from one.
    pub next_page: nat,
    /// Whether an empty page has ended the listing.
    pub loaded: bool,
}

impl Listing {
    /// Nothing was read: the first page is next.
    pub open spec fn start() -> Listing {
        Listing { index: Map::empty(), next_page: 1, loaded: false }
    }

    /// The number of pages that were asked for and taken.
    pub open spec fn requests(self) -> nat {
        (self.next_page - 1) as nat
    }

    /// The listing after the answer to one request: an empty page ends it,
    /// any other page is merged into the index. A listing that is at its
    /// end takes nothing more.
    pub open spec fn take(self, page: Seq<(Seq<char>, u64)>) -> Listing {
        if self.loaded {
            self
        } else {
            Listing { index: merged(self.index, page), next_page: self.next_page + 1, loaded: page.len() == 0 }
        }
    }

    /// The listing after the pages were taken one by one.
    pub open spec fn read(self, pages: Seq<Seq<(Seq<char>, u64)>>) -> Listing
        decreases pages.len(),
    {
        if pages.len() == 0 {
            self
        } else {
            self.take(pages[0]).read(pages.drop_first())
        }
    }
}

/// The titles of the entries differ from each other, and the index holds
/// none of them.
pub open spec fn fresh_titles(index: Map<Seq<char>, u64>, page: Seq<(Seq<char>, u64)>) -> bool {
    &&& forall|i: int, j: int| 0 <= i < j < page.len() ==> page[i].0 != page[j].0
    &&& forall|i: int| 0 <= i < page.len() ==> !index.contains_key(#[trigger] page[i].0)
}

/// Writing one run of entries and then another is writing them all in one
/// run.
pub proof fn lemma_merged_concat(index: Map<Seq<char>, u64>, a: Seq<(Seq<char>, u64)>, b: Seq<(Seq<char>, u64)>)
    ensures
        merged(merged(index, a), b) == merged(index, a + b),
    decreases b.len(),
{
    if b.len() == 0 {
        assert(a + b =~= a);
    } else {
        lemma_merged_concat(index, a, b.drop_last());
        assert((a + b).drop_last() =~= a + b.drop_last());
        assert((a + b).last() == b.last());
    }
}

/// The index holds the titles it held and those of the entries written to it.
pub proof fn lemma_merged_keys(index: Map<Seq<char>, u64>, page: Seq<(Seq<char>, u64)>)
    ensures
        forall|t: Seq<char>|
            #![trigger merged(index, page).contains_key(t)]
            merged(index, page).contains_key(t) <==> index.contains_key(t) || exists|i: int|
                0 <= i < page.len() && #[trigger] page[i].0 == t,
    decreases page.len(),
{
    if page.len() > 0 {
        let rest = page.drop_last();
        let last = page.last();
        lemma_merged_keys(index, rest);
        assert(merged(index, page) == merged(index, rest).insert(last.0, last.1));
        assert forall|t: Seq<char>|
            #![trigger merged(index, page).contains_key(t)]
            merged(index, page).contains_key(t) <==> index.contains_key(t) || exists|i: int|
                0 <= i < page.len() && #[trigger] page[i].0 == t by {
            if merged(index, page).contains_key(t) && !index.contains_key(t) {
                if t == last.0 {
                    assert(page[page.len() - 1].0 == t);
                } else {
                    assert(merged(index, rest).contains_key(t));
                    let i = choose|i: int| 0 <= i < rest.len() && #[trigger] rest[i].0 == t;
                    assert(page[i].0 == t);
                }
            }
            if exists|i: int| 0 <= i < page.len() && #[trigger] page[i].0 == t {
                let i = choose|i: int| 0 <= i < page.len() && #[trigger] page[i].0 == t;
                if i < rest.len() {
                    assert(rest[i].0 == t);
                    assert(merged(index, rest).contains_key(t));
                } else {
                    assert(t == last.0);
                }
            }
        }
    }
}

/// Without title collisions every entry adds one title: the index grows by
/// the number of entries written to it.
pub proof fn lemma_merged_len(index: Map<Seq<char>, u64>, page: Seq<(Seq<char>, u64)>)
    requires
        index.dom().finite(),
        fresh_titles(index, page),
    ensures
        merged(index, page).dom().finite(),
        merged(index, page).len() == index.len() + page.len(),
    decreases page.len(),
{
    if page.len() > 0 {
        let rest = page.drop_last();
        assert(fresh_titles(index, rest)) by {
            assert forall|i: int, j: int| 0 <= i < j < rest.len() implies rest[i].0 != rest[j].0 by {
                assert(rest[i] == page[i] && rest[j] == page[j]);
            }
            assert forall|i: int| 0 <= i < rest.len() implies !index.contains_key(#[trigger] rest[i].0) by {
                assert(rest[i] == page[i]);
            }
        }
        lemma_merged_len(index, rest);
        lemma_merged_keys(index, rest);
        let m0 = merged(index, rest);
        let last = page.last();
        assert(!m0.contains_key(last.0)) by {
            assert(!index.contains_key(page[page.len() - 1].0));
            if exists|i: int| 0 <= i < rest.len() && #[trigger] rest[i].0 == last.0 {
                let i = choose|i: int| 0 <= i < rest.len() && #[trigger] rest[i].0 == last.0;
                assert(page[i].0 == page[page.len() - 1].0);
            }
        }
        assert(merged(index, page).dom() =~= m0.dom().insert(last.0));
    }
}

/// A listing that is at its end stays as it is, whatever pages follow.
pub proof fn lemma_read_after_the_end(from: Listing, pages: Seq<Seq<(Seq<char>, u64)>>)
    requires
        from.loaded,
    ensures
        from.read(pages) == from,
    decreases pages.len(),
{
    if pages.len() > 0 {
        lemma_read_after_the_end(from, pages.drop_first());
    }
}

/// Reading ends at the first empty page: where the pages before position
/// `k` hold milestones and the page at `k` holds none, the pages up to `k`
/// are asked for and no other, and the index holds what the pages before
/// `k` hold.
pub proof fn lemma_read_stops_at_first_empty_page(
    from: Listing,
    pages: Seq<Seq<(Seq<char>, u64)>>,
    k: int,
)
    requires
        !from.loaded,
        0 <= k < pages.len(),
        forall|i: int| 0 <= i < k ==> (#[trigger] pages[i]).len() > 0,
        pages[k].len() == 0,
    ensures
        from.read(pages).loaded,
        from.read(pages).next_page == from.next_page + k + 1,
        from.read(pages).index == merged(from.index, pages.take(k).flatten()),
    decreases k,
{
    let first = from.take(pages[0]);
    let rest = pages.drop_first();
    if k == 0 {
        assert(pages.take(0) =~= Seq::<Seq<(Seq<char>, u64)>>::empty());
        lemma_read_after_the_end(first, rest);
    } else {
        assert(pages[0].len() > 0);
        assert forall|i: int| 0 <= i < k - 1 implies (#[trigger] rest[i]).len() > 0 by {
            assert(rest[i] == pages[i + 1]);
        }
        assert(rest[k - 1] == pages[k]);
        lemma_read_stops_at_first_empty_page(first, rest, k - 1);
        assert(pages.take(k).drop_first() =~= rest.take(k - 1));
        assert(pages.take(k).first() == pages[0]);
        lemma_merged_concat(from.index, pages[0], rest.take(k - 1).flatten());
    }
}

/// Reading from the start ends at the first empty page after exactly one
/// request for each page up to it. Without title collisions the index then
/// holds as many milestones as the pages before it hold together.
pub proof fn lemma_pagination(pages: Seq<Seq<(Seq<char>, u64)>>, k: int)
    requires
        0 <= k < pages.len(),
        forall|i: int| 0 <= i < k ==> (#[trigger] pages[i]).len() > 0,
        pages[k].len() == 0,
    ensures
        Listing::start().read(pages).loaded,
        Listing::start().read(pages).requests() == k + 1,
        Listing::start().read(pages).index == merged(Map::empty(), pages.take(k).flatten()),
        fresh_titles(Map::empty(), pages.take(k).flatten()) ==> Listing::start().read(pages).index.dom().finite()
            && Listing::start().read(pages).index.len() == pages.take(k).flatten().len(),
{
    lemma_read_stops_at_first_empty_page(Listing::start(), pages, k);
    if fresh_titles(Map::empty(), pages.take(k).flatten()) {
        lemma_merged_len(Map::empty(), pages.take(k).flatten());
    }
}

/// What the index of entries with distinct titles holds: the titles of the
/// entries, as many as there are entries, each with the number of its entry.
proof fn lemma_entries_model(entries: Seq<Milestone>)
    requires
        distinct_titles(entries),
    ensures
        index_of(entries).dom().finite(),
        index_of(entries).len() == entries.len(),
        forall|t: Seq<char>|
            #![trigger index_of(entries).contains_key(t)]
            index_of(entries).contains_key(t) <==> exists|k: int|
                0 <= k < entries.len() && #[trigger] entries[k].title@ == t,
        forall|k: int|
            0 <= k < entries.len() ==> index_of(entries)[#[trigger] entries[k].title@]
                == entries[k].number,
    decreases entries.len(),
{
    let m = index_of(entries);
    if entries.len() == 0 {
        assert(m.dom() =~= Set::<Seq<char>>::empty());
    } else {
        let rest = entries.drop_last();
        let last = entries.last();
        assert(page_view(entries).drop_last() =~= page_view(rest));
        assert(page_view(entries).last() == last@);
        assert(distinct_titles(rest)) by {
            assert forall|i: int, j: int| 0 <= i < j < rest.len() implies rest[i].title@ != rest[j].title@ by {
                assert(rest[i] == entries[i] && rest[j] == entries[j]);
            }
        }
        lemma_entries_model(rest);
        let m0 = index_of(rest);
        assert(m == m0.insert(last.title@, last.number));
        assert(!m0.contains_key(last.title@)) by {
            if m0.contains_key(last.title@) {
                let k = choose|k: int| 0 <= k < rest.len() && #[trigger] rest[k].title@ == last.title@;
                assert(entries[k].title@ == entries[entries.len() - 1].title@);
            }
        }
        assert(m.dom() =~= m0.dom().insert(last.title@));
        assert forall|t: Seq<char>|
            #![trigger m.contains_key(t)]
            m.contains_key(t) <==> exists|k: int| 0 <= k < entries.len() && #[trigger] entries[k].title@ == t by {
            if m.contains_key(t) {
                if t == last.title@ {
                    assert(entries[entries.len() - 1].title@ == t);
                } else {
                    let k = choose|k: int| 0 <= k < rest.len() && #[trigger] rest[k].title@ == t;
                    assert(entries[k].title@ == t);
                }
            }
            if exists|k: int| 0 <= k < entries.len() && #[trigger] entries[k].title@ == t {
                let k = choose|k: int| 0 <= k < entries.len() && #[trigger] entries[k].title@ == t;
                if k < rest.len() {
                    assert(rest[k].title@ == t);
                }
            }
        }
        assert forall|k: int| 0 <= k < entries.len() implies m[#[trigger] entries[k].title@]
            == entries[k].number by {
            if k < rest.len() {
                assert(rest[k] == entries[k]);
                assert(entries[k].title@ != entries[entries.len() - 1].title@);
            }
        }
    }
}

} // verus!
