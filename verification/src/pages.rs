//! The pages of a list that were fetched so far, in the order in which they stand in the list.

use std::collections::HashSet;

use vstd::prelude::*;

use crate::domain::{Paged, PagedView};

verus! {

/// Pages, and which of them is the current one.
pub struct ScrollableResultPages<T> {
    pub index: usize,
    pub pages: Vec<Paged<T>>,
}

/// What a [`ScrollableResultPages`] stands for.
pub struct PagesView<V> {
    pub index: usize,
    pub pages: Seq<PagedView<V>>,
}

impl<T: DeepView> DeepView for ScrollableResultPages<T> {
    type V = PagesView<T::V>;

    open spec fn deep_view(&self) -> PagesView<T::V> {
        PagesView { index: self.index, pages: self.pages.deep_view() }
    }
}

/// The first page that starts at an offset; the number of pages, where none does.
pub open spec fn offset_index<V>(pages: Seq<PagedView<V>>, offset: u32) -> int
    decreases pages.len(),
{
    if pages.len() == 0 || pages[0].offset == offset {
        0
    } else {
        1 + offset_index(pages.skip(1), offset)
    }
}

/// A page starts at the offset.
pub open spec fn has_page_at<V>(pages: Seq<PagedView<V>>, offset: u32) -> bool {
    exists|i: int| 0 <= i < pages.len() && (#[trigger] pages[i]).offset == offset
}

/// The first page that starts behind an offset; the number of pages, where none does.
pub open spec fn place_for<V>(pages: Seq<PagedView<V>>, offset: u32) -> int
    decreases pages.len(),
{
    if pages.len() == 0 || pages[0].offset > offset {
        0
    } else {
        1 + place_for(pages.skip(1), offset)
    }
}

/// The pages, with one put in its place: instead of a page that starts at the same offset, or
/// before the first one that starts behind it.
pub open spec fn upserted<V>(pages: Seq<PagedView<V>>, page: PagedView<V>) -> Seq<PagedView<V>> {
    if has_page_at(pages, page.offset) {
        pages.update(offset_index(pages, page.offset), page)
    } else {
        pages.insert(place_for(pages, page.offset), page)
    }
}

/// Where [`upserted`] puts a page.
pub open spec fn upsert_index<V>(pages: Seq<PagedView<V>>, page: PagedView<V>) -> int {
    if has_page_at(pages, page.offset) {
        offset_index(pages, page.offset)
    } else {
        place_for(pages, page.offset)
    }
}

/// The pages stand in the order of their offsets, no offset twice.
pub open spec fn in_order<V>(pages: Seq<PagedView<V>>) -> bool {
    forall|i: int, j: int|
        0 <= i < j < pages.len() ==> (#[trigger] pages[i]).offset < (#[trigger] pages[j]).offset
}

pub proof fn lemma_offset_index<V>(pages: Seq<PagedView<V>>, offset: u32)
    ensures
        0 <= offset_index(pages, offset) <= pages.len(),
        has_page_at(pages, offset) <==> offset_index(pages, offset) < pages.len(),
        has_page_at(pages, offset) ==> pages[offset_index(pages, offset)].offset == offset,
        forall|i: int|
            0 <= i < offset_index(pages, offset) ==> (#[trigger] pages[i]).offset != offset,
    decreases pages.len(),
{
    if pages.len() > 0 && pages[0].offset != offset {
        let rest = pages.skip(1);
        lemma_offset_index(rest, offset);
        assert forall|i: int| 0 <= i < offset_index(pages, offset) implies (
        #[trigger] pages[i]).offset != offset by {
            if i > 0 {
                assert(pages[i] == rest[i - 1]);
            }
        }
        if has_page_at(pages, offset) {
            let i = choose|i: int| 0 <= i < pages.len() && (#[trigger] pages[i]).offset == offset;
            assert(rest[i - 1].offset == offset);
        }
        if has_page_at(rest, offset) {
            assert(pages[offset_index(pages, offset)] == rest[offset_index(rest, offset)]);
        }
    }
}

pub proof fn lemma_place_for<V>(pages: Seq<PagedView<V>>, offset: u32)
    ensures
        0 <= place_for(pages, offset) <= pages.len(),
        place_for(pages, offset) < pages.len() ==> pages[place_for(pages, offset)].offset > offset,
        forall|i: int| 0 <= i < place_for(pages, offset) ==> (#[trigger] pages[i]).offset <= offset,
    decreases pages.len(),
{
    if pages.len() > 0 && pages[0].offset <= offset {
        let rest = pages.skip(1);
        lemma_place_for(rest, offset);
        assert forall|i: int| 0 <= i < place_for(pages, offset) implies (#[trigger] pages[i]).offset
            <= offset by {
            if i > 0 {
                assert(pages[i] == rest[i - 1]);
            }
        }
    }
}

/// Putting a page in its place keeps the pages in order, and the page is found at its offset.
pub proof fn lemma_upsert_keeps_order<V>(pages: Seq<PagedView<V>>, page: PagedView<V>)
    requires
        in_order(pages),
    ensures
        in_order(upserted(pages, page)),
        0 <= upsert_index(pages, page) < upserted(pages, page).len(),
        upserted(pages, page)[upsert_index(pages, page)] == page,
        offset_index(upserted(pages, page), page.offset) == upsert_index(pages, page),
        forall|offset: u32|
            #[trigger] has_page_at(upserted(pages, page), offset) <==> offset == page.offset
                || has_page_at(pages, offset),
{
    lemma_offset_index(pages, page.offset);
    lemma_place_for(pages, page.offset);
    let all = upserted(pages, page);
    let at = upsert_index(pages, page);
    lemma_offset_index(all, page.offset);
    assert(all[at] == page);
    if !has_page_at(pages, page.offset) {
        assert forall|i: int, j: int| 0 <= i < j < all.len() implies (#[trigger] all[i]).offset < (
        #[trigger] all[j]).offset by {
            if i < at {
                assert(pages[i].offset != page.offset);
            }
        }
    }
    assert forall|offset: u32| #[trigger] has_page_at(all, offset) <==> offset == page.offset
        || has_page_at(pages, offset) by {
        if has_page_at(pages, offset) && offset != page.offset {
            let i = choose|i: int| 0 <= i < pages.len() && (#[trigger] pages[i]).offset == offset;
            if has_page_at(pages, page.offset) || i < at {
                assert(all[i] == pages[i]);
            } else {
                assert(all[i + 1] == pages[i]);
            }
        }
        if has_page_at(all, offset) && offset != page.offset {
            let i = choose|i: int| 0 <= i < all.len() && (#[trigger] all[i]).offset == offset;
            if has_page_at(pages, page.offset) || i < at {
                assert(all[i] == pages[i]);
            } else {
                assert(all[i] == pages[i - 1]);
            }
        }
    }
}

impl<T: DeepView> ScrollableResultPages<T> {
    /// No pages.
    pub fn new() -> (pages: Self)
        ensures
            pages.deep_view() == (PagesView::<T::V> { index: 0, pages: seq![] }),
    {
        let pages = ScrollableResultPages { index: 0, pages: Vec::new() };
        assert(pages.pages.deep_view() =~= seq![]);
        pages
    }

    /// The page that starts at an offset.
    pub fn page_index_for_offset(&self, offset: u32) -> (place: Option<usize>)
        ensures
            place matches Some(i) ==> {
                &&& has_page_at(self.deep_view().pages, offset)
                &&& i == offset_index(self.deep_view().pages, offset)
                &&& i < self.deep_view().pages.len()
            },
            place is None ==> !has_page_at(self.deep_view().pages, offset),
    {
        let ghost views = self.pages.deep_view();
        proof {
            lemma_offset_index(views, offset);
        }
        let mut i: usize = 0;
        while i < self.pages.len()
            invariant
                i <= self.pages@.len(),
                views == self.pages.deep_view(),
                0 <= offset_index(views, offset) <= views.len(),
                has_page_at(views, offset) <==> offset_index(views, offset) < views.len(),
                has_page_at(views, offset) ==> views[offset_index(views, offset)].offset == offset,
                forall|k: int|
                    0 <= k < offset_index(views, offset) ==> (#[trigger] views[k]).offset != offset,
                forall|k: int| 0 <= k < i ==> (#[trigger] views[k]).offset != offset,
            decreases self.pages@.len() - i,
        {
            assert(views[i as int].offset == self.pages@[i as int].offset);
            if self.pages[i].offset == offset {
                return Some(i);
            }
            i += 1;
        }
        None
    }

    fn insertion_place(&self, offset: u32) -> (place: usize)
        ensures
            place == place_for(self.deep_view().pages, offset),
            place <= self.pages@.len(),
    {
        let ghost views = self.pages.deep_view();
        let mut i: usize = 0;
        assert(views.skip(0) =~= views);
        while i < self.pages.len() && self.pages[i].offset <= offset
            invariant
                i <= self.pages@.len(),
                views == self.pages.deep_view(),
                place_for(views, offset) == i + place_for(views.skip(i as int), offset),
            decreases self.pages@.len() - i,
        {
            assert(views.skip(i as int)[0].offset == self.pages@[i as int].offset);
            assert(views.skip(i as int).skip(1) =~= views.skip(i + 1));
            i += 1;
        }
        assert(i < views.len() ==> views.skip(i as int)[0].offset == self.pages@[i as int].offset);
        i
    }

    /// Puts a page in its place among the others, and says where that is. The current page stays
    /// the one with its number.
    pub fn upsert_page_by_offset(&mut self, page: Paged<T>) -> (place: usize)
        ensures
            final(self).deep_view() == (PagesView::<T::V> {
                index: old(self).deep_view().index,
                pages: upserted(old(self).deep_view().pages, page.deep_view()),
            }),
            place == upsert_index(old(self).deep_view().pages, page.deep_view()),
            place < final(self).pages@.len(),
            final(self).deep_view().pages[place as int] == page.deep_view(),
    {
        let ghost views = self.pages.deep_view();
        proof {
            lemma_offset_index(views, page.offset);
        }
        match self.page_index_for_offset(page.offset) {
            Some(i) => {
                self.pages.set(i, page);
                assert(self.pages.deep_view() =~= views.update(i as int, page.deep_view()));
                i
            },
            None => {
                let i = self.insertion_place(page.offset);
                self.pages.insert(i, page);
                assert(self.pages.deep_view() =~= views.insert(i as int, page.deep_view()));
                i
            },
        }
    }

    /// Adds a page behind the others and makes it the current one.
    pub fn add_pages(&mut self, page: Paged<T>)
        ensures
            final(self).deep_view() == (PagesView::<T::V> {
                index: old(self).deep_view().pages.len() as usize,
                pages: old(self).deep_view().pages.push(page.deep_view()),
            }),
    {
        let ghost views = self.pages.deep_view();
        self.index = self.pages.len();
        self.pages.push(page);
        assert(self.pages.deep_view() =~= views.push(page.deep_view()));
    }

    /// Forgets all pages.
    pub fn clear(&mut self)
        ensures
            final(self).deep_view() == (PagesView::<T::V> { index: 0, pages: seq![] }),
    {
        self.index = 0;
        self.pages.clear();
        assert(self.pages.deep_view() =~= seq![]);
    }

    /// The page at a place.
    pub fn get_results(&self, place: usize) -> (page: Option<&Paged<T>>)
        ensures
            page.deep_view() == (if place < self.deep_view().pages.len() {
                Some(self.deep_view().pages[place as int])
            } else {
                None
            }),
    {
        if place < self.pages.len() {
            assert(self.pages.deep_view()[place as int] == self.pages@[place as int].deep_view());
            Some(&self.pages[place])
        } else {
            None
        }
    }
}

/// A sum, or the highest offset where it is beyond that.
pub open spec fn saturated(a: u32, b: u32) -> u32 {
    if a + b > u32::MAX {
        u32::MAX
    } else {
        (a + b) as u32
    }
}

/// How many of the pages follow each other without a gap, from an offset on. A page without a next
/// one is the last, and no offset counts twice.
pub open spec fn run_length<V>(pages: Seq<PagedView<V>>, expected: u32, seen: Set<u32>) -> nat
    decreases pages.len(),
{
    if pages.len() == 0 || pages[0].offset != expected || seen.contains(expected) {
        0
    } else if pages[0].next is None {
        1
    } else {
        1 + run_length(pages.skip(1), saturated(expected, pages[0].limit), seen.insert(expected))
    }
}

/// The pages that can be shown as one list: those without a gap from the start on.
pub open spec fn shown_pages<V>(pages: Seq<PagedView<V>>) -> Seq<PagedView<V>> {
    pages.take(run_length(pages, 0, Set::empty()) as int)
}

/// The last of some pages.
pub open spec fn last_page<V>(pages: Seq<PagedView<V>>) -> Option<PagedView<V>> {
    if pages.len() == 0 {
        None
    } else {
        Some(pages.last())
    }
}

/// The place of the last of some pages.
pub open spec fn last_place<V>(pages: Seq<PagedView<V>>) -> usize {
    if pages.len() == 0 {
        0
    } else {
        (pages.len() - 1) as usize
    }
}

pub proof fn lemma_run_length<V>(pages: Seq<PagedView<V>>, expected: u32, seen: Set<u32>)
    ensures
        run_length(pages, expected, seen) <= pages.len(),
    decreases pages.len(),
{
    if pages.len() > 0 {
        lemma_run_length(
            pages.skip(1),
            saturated(expected, pages[0].limit),
            seen.insert(expected),
        );
    }
}

/// The number of pages that follow each other from the start on.
pub fn count_run<T: DeepView>(pages: &Vec<Paged<T>>) -> (count: usize)
    ensures
        count == run_length(pages.deep_view(), 0, Set::empty()),
        count <= pages@.len(),
{
    broadcast use vstd::std_specs::hash::group_hash_axioms;

    let ghost views = pages.deep_view();
    let mut expected: u32 = 0;
    let mut seen: HashSet<u32> = HashSet::new();
    let mut count: usize = 0;
    assert(views.skip(0) =~= views);
    while count < pages.len()
        invariant
            count <= pages@.len(),
            views == pages.deep_view(),
            run_length(views, 0, Set::empty()) == count + run_length(
                views.skip(count as int),
                expected,
                seen@,
            ),
        decreases pages@.len() - count,
    {
        let page = &pages[count];
        assert(views.skip(count as int)[0] == page.deep_view());
        if page.offset != expected || seen.contains(&expected) {
            return count;
        }
        if page.next.is_none() {
            return count + 1;
        }
        seen.insert(expected);
        assert(views.skip(count as int).skip(1) =~= views.skip(count + 1));
        expected = expected.saturating_add(page.limit);
        count += 1;
    }
    count
}

/// The pages start where they are expected to, and each starts where the one before it ends.
pub open spec fn without_gap<V>(pages: Seq<PagedView<V>>, expected: u32) -> bool {
    &&& pages.len() > 0 ==> pages[0].offset == expected
    &&& forall|i: int|
        0 <= i < pages.len() - 1 ==> {
            &&& (#[trigger] pages[i]).next is Some
            &&& pages[i + 1].offset == saturated(pages[i].offset, pages[i].limit)
        }
}

pub proof fn lemma_run_without_gap<V>(pages: Seq<PagedView<V>>, expected: u32, seen: Set<u32>)
    ensures
        run_length(pages, expected, seen) <= pages.len(),
        without_gap(pages.take(run_length(pages, expected, seen) as int), expected),
    decreases pages.len(),
{
    lemma_run_length(pages, expected, seen);
    let run = run_length(pages, expected, seen) as int;
    if run > 1 {
        let rest = pages.skip(1);
        let next = saturated(expected, pages[0].limit);
        lemma_run_without_gap(rest, next, seen.insert(expected));
        let shown = pages.take(run);
        let shown_rest = rest.take(run - 1);
        assert(shown_rest =~= shown.skip(1));
        assert forall|i: int| 0 <= i < shown.len() - 1 implies (#[trigger] shown[i]).next is Some
            && shown[i + 1].offset == saturated(shown[i].offset, shown[i].limit) by {
            if i > 0 {
                assert(shown[i] == shown_rest[i - 1]);
                assert(shown[i + 1] == shown_rest[i]);
            } else {
                assert(shown[1] == shown_rest[0]);
            }
        }
    }
}

/// Putting a page in its place leaves every page at another offset as it is, and takes nothing away
/// but the page that stood at its offset.
pub proof fn lemma_upsert_keeps_others<V>(
    pages: Seq<PagedView<V>>,
    page: PagedView<V>,
    other: PagedView<V>,
)
    requires
        in_order(pages),
        other.offset != page.offset,
    ensures
        upserted(pages, page).contains(other) <==> pages.contains(other),
        upserted(pages, page).contains(page),
        upserted(pages, page).len() == pages.len() + if has_page_at(pages, page.offset) {
            0int
        } else {
            1
        },
{
    let after = upserted(pages, page);
    lemma_offset_index(pages, page.offset);
    lemma_place_for(pages, page.offset);
    let at = upsert_index(pages, page);
    if has_page_at(pages, page.offset) {
        assert(after[at] == page);
        if pages.contains(other) {
            let i = choose|i: int| 0 <= i < pages.len() && pages[i] == other;
            assert(after[i] == other);
        }
        if after.contains(other) {
            let i = choose|i: int| 0 <= i < after.len() && after[i] == other;
            assert(pages[i] == other);
        }
    } else {
        assert(after[at] == page);
        if pages.contains(other) {
            let i = choose|i: int| 0 <= i < pages.len() && pages[i] == other;
            if i < at {
                assert(after[i] == other);
            } else {
                assert(after[i + 1] == other);
            }
        }
        if after.contains(other) {
            let i = choose|i: int| 0 <= i < after.len() && after[i] == other;
            if i < at {
                assert(pages[i] == other);
            } else {
                assert(pages[i - 1] == other);
            }
        }
    }
}

proof fn lemma_run_stops<V>(pages: Seq<PagedView<V>>, expected: u32, seen: Set<u32>)
    requires
        in_order(pages),
        forall|i: int| 0 <= i < pages.len() ==> !seen.contains((#[trigger] pages[i]).offset),
    ensures
        ({
            let count = run_length(pages, expected, seen) as int;
            &&& count <= pages.len()
            &&& 0 < count < pages.len() ==> pages[count - 1].next is None || pages[count].offset
                != saturated(pages[count - 1].offset, pages[count - 1].limit)
            &&& count == 0 && pages.len() > 0 ==> pages[0].offset != expected
        }),
    decreases pages.len(),
{
    if pages.len() > 0 && pages[0].offset == expected && pages[0].next is Some {
        let rest = pages.skip(1);
        let next = saturated(expected, pages[0].limit);
        let more = seen.insert(expected);
        assert forall|i: int| 0 <= i < rest.len() implies !more.contains(
            (#[trigger] rest[i]).offset,
        ) by {
            assert(rest[i] == pages[i + 1]);
            assert(pages[0].offset < pages[i + 1].offset);
        }
        assert(in_order(rest)) by {
            assert forall|i: int, j: int| 0 <= i < j < rest.len() implies (#[trigger] rest[i]).offset
                < (#[trigger] rest[j]).offset by {
                assert(pages[i + 1].offset < pages[j + 1].offset);
            }
        }
        lemma_run_stops(rest, next, more);
        let count = run_length(pages, expected, seen) as int;
        let inner = run_length(rest, next, more) as int;
        assert(count == inner + 1);
        if 0 < count < pages.len() {
            assert(pages[count] == rest[inner]);
            if inner > 0 {
                assert(pages[count - 1] == rest[inner - 1]);
            }
        }
    }
}

/// The pages that are shown as one list begin at the start, and go on as far as they can: they stop
/// only at a page without a next one, or where the page behind the last one was not fetched.
pub proof fn lemma_shown_pages_go_on<V>(pages: Seq<PagedView<V>>)
    requires
        in_order(pages),
    ensures
        ({
            let shown = shown_pages(pages);
            let count = shown.len() as int;
            &&& count <= pages.len()
            &&& shown == pages.take(count)
            &&& 0 < count < pages.len() ==> pages[count - 1].next is None || pages[count].offset
                != saturated(pages[count - 1].offset, pages[count - 1].limit)
            &&& pages.len() > 0 && pages[0].offset == 0 ==> count > 0
        }),
{
    lemma_run_stops(pages, 0, Set::empty());
}

/// The last of some pages, and its place.
pub proof fn lemma_last_page<V>(pages: Seq<PagedView<V>>)
    requires
        pages.len() <= usize::MAX,
    ensures
        pages.len() > 0 ==> last_page(pages) == Some(pages[last_place(pages) as int]) && last_place(
            pages,
        ) + 1 == pages.len(),
        pages.len() == 0 ==> last_page(pages) is None && last_place(pages) == 0,
{
}

/// A sum of offsets is the sum, up to the highest offset.
pub proof fn lemma_saturated(a: u32, b: u32)
    ensures
        a + b <= u32::MAX ==> saturated(a, b) == a + b,
        a + b > u32::MAX ==> saturated(a, b) == u32::MAX,
{
}

} // verus!
