//! How an entity is fetched: where it lives, and how the pages of a
//! paginated entity come together.
//!
//! The requests themselves are made elsewhere. This module says which
//! addresses to ask, and turns what came back, in whatever order it came,
//! into the one entity or the one failure that the fetch ends in.

use vstd::prelude::*;
use vstd::string::*;

use crate::text::{decimal, decimal_string};
use crate::tvdb_errors::TvdbError;

verus! {

/// An entity that can be fetched by an id.
pub trait TvdbFrom: Sized {
    /// The address of the entity with the given id. Unless an entity says
    /// otherwise, its id is its address.
    open spec fn resource_url(id: Seq<char>) -> Seq<char> {
        id
    }

    /// Builds the address of the entity with the given id.
    fn url_from_id(id: &str) -> (r: String)
        ensures
            r@ == Self::resource_url(id@),
    ;
}

/// An entity that arrives in pages, each page an entity of the same shape
/// with its own share of the elements.
pub trait TvdbFromMulti: TvdbFrom + View {
    type Element;

    /// The number of pages the entity says it has.
    spec fn pages(&self) -> usize;

    /// The elements the entity holds.
    spec fn elements(&self) -> Seq<Self::Element>;

    /// What an entity holds once its elements are replaced by `elements`
    /// and all else is kept.
    spec fn with_elements(v: Self::V, elements: Seq<Self::Element>) -> Self::V;

    /// Replacing the elements twice is replacing them by the last.
    proof fn with_elements_twice(v: Self::V, a: Seq<Self::Element>, b: Seq<Self::Element>)
        ensures
            Self::with_elements(Self::with_elements(v, a), b) == Self::with_elements(v, b),
    ;

    /// Replacing the elements by themselves changes nothing.
    proof fn with_elements_same(&self)
        ensures
            Self::with_elements(self@, self.elements()) == self@,
    ;

    fn num_pages(&self) -> (r: usize)
        ensures
            r == self.pages(),
    ;

    fn get_data(&self) -> (r: &[Self::Element])
        ensures
            r@ == self.elements(),
    ;

    /// The elements, open for appending. Nothing else of the entity changes.
    fn get_data_mut(&mut self) -> (r: &mut Vec<Self::Element>)
        ensures
            r@ == old(self).elements(),
            final(self)@ == Self::with_elements(old(self)@, final(r)@),
            final(self).elements() == final(r)@,
            final(self).pages() == old(self).pages(),
    ;

    /// Gives up the entity for its elements.
    fn into_data(self) -> (r: Vec<Self::Element>)
        ensures
            r@ == self.elements(),
    ;
}

/// How many page requests may be in flight at a time.
pub const PAGE_WORKERS: usize = 8;

/// The address of page `page` of the resource at `url`.
pub open spec fn page_address(url: Seq<char>, page: nat) -> Seq<char> {
    url + "?page="@ + decimal(page)
}

/// Builds the address of page `page` of the resource at `url`.
pub fn page_url(url: &str, page: usize) -> (r: String)
    ensures
        r@ == page_address(url@, page as nat),
{
    let number = decimal_string(page as u64);
    String::from_str(url).concat("?page=").concat(number.as_str())
}

/// A page to ask for: its number and its address.
#[derive(Debug)]
pub struct PageRequest {
    pub page: usize,
    pub url: String,
}

/// The pages after the first, in page order, each with its address: pages
/// 2 to `pages`, none where there is one page or less.
pub fn page_requests(url: &str, pages: usize) -> (r: Vec<PageRequest>)
    ensures
        pages > 1 ==> r@.len() == pages - 1,
        pages <= 1 ==> r@.len() == 0,
        forall|k: int|
            0 <= k < r@.len() ==> (#[trigger] r@[k]).page == k + 2 && r@[k].url@ == page_address(
                url@,
                (k + 2) as nat,
            ),
{
    let mut requests: Vec<PageRequest> = Vec::new();
    let mut page: usize = 1;
    while page < pages
        invariant
            1 <= page,
            page <= pages || page == 1,
            requests@.len() == page - 1,
            forall|k: int|
                0 <= k < requests@.len() ==> (#[trigger] requests@[k]).page == k + 2
                    && requests@[k].url@ == page_address(url@, (k + 2) as nat),
        decreases pages - page,
    {
        page += 1;
        requests.push(PageRequest { page, url: page_url(url, page) });
    }
    requests
}

/// The pages to ask for the rest of a paginated entity, once its first
/// page has said how many pages there are.
pub fn more_page_requests<T: TvdbFromMulti>(id: &str, first: &T) -> (r: Vec<PageRequest>)
    ensures
        first.pages() > 1 ==> r@.len() == first.pages() - 1,
        first.pages() <= 1 ==> r@.len() == 0,
        forall|k: int|
            0 <= k < r@.len() ==> (#[trigger] r@[k]).page == k + 2 && r@[k].url@ == page_address(
                T::resource_url(id@),
                (k + 2) as nat,
            ),
{
    let url = T::url_from_id(id);
    page_requests(url.as_str(), first.num_pages())
}

/// Appends the elements of `page` to those of `acc`; all else of `acc` is
/// kept.
pub fn append_page<T: TvdbFromMulti>(acc: &mut T, page: T)
    ensures
        final(acc)@ == T::with_elements(old(acc)@, old(acc).elements() + page.elements()),
        final(acc).elements() == old(acc).elements() + page.elements(),
        final(acc).pages() == old(acc).pages(),
{
    let mut more = page.into_data();
    let data = acc.get_data_mut();
    data.append(&mut more);
}

/// The elements that one page contributes: its own where it arrived well,
/// none where it failed.
pub open spec fn page_elements<T: TvdbFromMulti>(page: Result<T, TvdbError>) -> Seq<T::Element> {
    match page {
        Ok(p) => p.elements(),
        Err(_) => Seq::empty(),
    }
}

/// The elements of all `pages`, page after page.
pub open spec fn joined<T: TvdbFromMulti>(pages: Seq<Result<T, TvdbError>>) -> Seq<T::Element>
    decreases pages.len(),
{
    if pages.len() == 0 {
        Seq::empty()
    } else {
        joined(pages.drop_last()) + page_elements(pages.last())
    }
}

/// Whether each of the first `k` pages arrived well.
pub open spec fn arrived_well_before<T>(pages: Seq<Result<T, TvdbError>>, k: int) -> bool {
    forall|j: int| 0 <= j < k && j < pages.len() ==> (#[trigger] pages[j]) is Ok
}

/// Whether `r` is what a fetch ends in, given its first page and the
/// outcomes of the later pages in page order. Where every page arrived, it
/// is the first page with the elements of all later pages appended in page
/// order, and otherwise unchanged. Where a page failed, it is the failure
/// of the earliest page that failed.
pub open spec fn is_assembly<T: TvdbFromMulti>(
    first: T,
    pages: Seq<Result<T, TvdbError>>,
    r: Result<T, TvdbError>,
) -> bool {
    &&& arrived_well_before(pages, pages.len() as int) ==> {
        &&& r is Ok
        &&& r->Ok_0@ == T::with_elements(first@, first.elements() + joined(pages))
        &&& r->Ok_0.elements() == first.elements() + joined(pages)
        &&& r->Ok_0.pages() == first.pages()
    }
    &&& forall|k: int|
        0 <= k < pages.len() && (#[trigger] pages[k]) is Err && arrived_well_before(pages, k) ==> r is Err
            && r->Err_0 == pages[k]->Err_0
}

/// Puts a fetch together from its first page and the outcomes of the later
/// pages, given in page order.
pub fn assemble<T: TvdbFromMulti>(first: T, pages: Vec<Result<T, TvdbError>>) -> (r: Result<
    T,
    TvdbError,
>)
    ensures
        is_assembly(first, pages@, r),
{
    let ghost whole = pages@;
    let mut acc = first;
    let mut rest = pages;
    let mut done: usize = 0;
    let total: usize = rest.len();
    proof {
        first.with_elements_same();
        assert(first.elements() + joined(whole.take(0)) =~= first.elements());
    }
    while done < total
        invariant
            whole == pages@,
            total == whole.len(),
            done <= total,
            rest@ == whole.skip(done as int),
            arrived_well_before(whole, done as int),
            acc@ == T::with_elements(first@, first.elements() + joined(whole.take(done as int))),
            acc.elements() == first.elements() + joined(whole.take(done as int)),
            acc.pages() == first.pages(),
        decreases total - done,
    {
        let outcome = rest.remove(0);
        proof {
            assert(outcome == whole[done as int]);
            assert(whole.skip(done as int).remove(0) =~= whole.skip(done + 1));
            assert(whole.take(done + 1).drop_last() =~= whole.take(done as int));
            assert(whole.take(done + 1).last() == whole[done as int]);
        }
        match outcome {
            Ok(page) => {
                let ghost so_far = acc.elements();
                append_page(&mut acc, page);
                proof {
                    assert(so_far + page.elements() =~= first.elements() + joined(
                        whole.take(done + 1),
                    ));
                    T::with_elements_twice(first@, so_far, so_far + page.elements());
                }
            },
            Err(e) => {
                proof {
                    assert(whole[done as int] is Err);
                    assert forall|k: int|
                        0 <= k < whole.len() && (#[trigger] whole[k]) is Err && arrived_well_before(
                            whole,
                            k,
                        ) implies k == done by {
                        if k > done {
                            assert(whole[done as int] is Ok);
                        }
                    }
                }
                return Err(e);
            },
        }
        done += 1;
    }
    proof {
        assert(whole.take(total as int) =~= whole);
    }
    Ok(acc)
}

/// The outcomes of the pages after the first, each in the slot of its page,
/// whatever the order in which they arrive. Slot `k` is that of page `k + 2`.
pub struct PageSlots<T> {
    slots: Vec<Option<Result<T, TvdbError>>>,
}

impl<T> View for PageSlots<T> {
    type V = Seq<Option<Result<T, TvdbError>>>;

    closed spec fn view(&self) -> Seq<Option<Result<T, TvdbError>>> {
        self.slots@
    }
}

/// Whether every slot is filled.
pub open spec fn all_arrived<T>(slots: Seq<Option<Result<T, TvdbError>>>) -> bool {
    forall|k: int| 0 <= k < slots.len() ==> (#[trigger] slots[k]) is Some
}

/// Whether some page has arrived as a failure.
pub open spec fn some_failed<T>(slots: Seq<Option<Result<T, TvdbError>>>) -> bool {
    exists|k: int| 0 <= k < slots.len() && (#[trigger] slots[k]) is Some && slots[k]->Some_0 is Err
}

/// The outcomes of the pages that have arrived in a row: those in the
/// slots from the first on, up to the first empty slot.
pub open spec fn arrived_in_row<T>(slots: Seq<Option<Result<T, TvdbError>>>) -> Seq<
    Result<T, TvdbError>,
>
    decreases slots.len(),
{
    if slots.len() == 0 {
        Seq::empty()
    } else {
        let front = arrived_in_row(slots.drop_last());
        if front.len() == slots.len() - 1 && slots.last() is Some {
            front.push(slots.last()->Some_0)
        } else {
            front
        }
    }
}

/// The pages arrived in a row are the filled slots in front of the first
/// empty one: each of them holds its outcome, and the slot behind them, if
/// there is one, is empty.
pub proof fn lemma_arrived_in_row<T>(slots: Seq<Option<Result<T, TvdbError>>>)
    ensures
        arrived_in_row(slots).len() <= slots.len(),
        forall|k: int|
            0 <= k < arrived_in_row(slots).len() ==> (#[trigger] slots[k]) == Some(
                arrived_in_row(slots)[k],
            ),
        arrived_in_row(slots).len() < slots.len() ==> slots[arrived_in_row(slots).len() as int]
            is None,
        all_arrived(slots) <==> arrived_in_row(slots).len() == slots.len(),
    decreases slots.len(),
{
    if slots.len() > 0 {
        let front = slots.drop_last();
        lemma_arrived_in_row(front);
        let row = arrived_in_row(slots);
        assert forall|k: int| 0 <= k < row.len() implies (#[trigger] slots[k]) == Some(row[k]) by {
            if k < arrived_in_row(front).len() {
                assert(slots[k] == front[k]);
            }
        }
        if arrived_in_row(front).len() < front.len() {
            assert(front[arrived_in_row(front).len() as int] == slots[arrived_in_row(
                front,
            ).len() as int]);
        }
        if all_arrived(slots) {
            assert forall|k: int| 0 <= k < front.len() implies (#[trigger] front[k]) is Some by {
                assert(front[k] == slots[k]);
            }
        }
    }
}

/// Whether a fetch can end on what has arrived in a row: every page is
/// there, or one of those pages failed.
pub open spec fn can_end<T>(slots: Seq<Option<Result<T, TvdbError>>>) -> bool {
    let pages = arrived_in_row(slots);
    pages.len() == slots.len() || !arrived_well_before(pages, pages.len() as int)
}

impl<T: TvdbFromMulti> PageSlots<T> {
    /// Empty slots for the pages after the first of an entity of `pages`
    /// pages.
    pub fn new(pages: usize) -> (r: Self)
        ensures
            pages > 1 ==> r@.len() == pages - 1,
            pages <= 1 ==> r@.len() == 0,
            forall|k: int| 0 <= k < r@.len() ==> (#[trigger] r@[k]) is None,
    {
        let mut slots: Vec<Option<Result<T, TvdbError>>> = Vec::new();
        let mut page: usize = 1;
        while page < pages
            invariant
                1 <= page,
                page <= pages || page == 1,
                slots@.len() == page - 1,
                forall|k: int| 0 <= k < slots@.len() ==> (#[trigger] slots@[k]) is None,
            decreases pages - page,
        {
            page += 1;
            slots.push(None);
        }
        PageSlots { slots }
    }

    /// Records the outcome of page `page`. A page number without a slot is
    /// turned away and changes nothing.
    pub fn put(&mut self, page: usize, outcome: Result<T, TvdbError>) -> (accepted: bool)
        ensures
            accepted <==> 2 <= page <= old(self)@.len() + 1,
            accepted ==> final(self)@ == old(self)@.update(page - 2, Some(outcome)),
            !accepted ==> final(self)@ == old(self)@,
    {
        if page >= 2 && page - 2 < self.slots.len() {
            self.slots.set(page - 2, Some(outcome));
            true
        } else {
            false
        }
    }

    /// Whether every page has arrived.
    pub fn is_complete(&self) -> (r: bool)
        ensures
            r == all_arrived(self@),
    {
        let mut k: usize = 0;
        while k < self.slots.len()
            invariant
                k <= self.slots.len(),
                forall|j: int| 0 <= j < k ==> (#[trigger] self.slots@[j]) is Some,
            decreases self.slots.len() - k,
        {
            if self.slots[k].is_none() {
                return false;
            }
            k += 1;
        }
        true
    }

    /// Whether some page has arrived as a failure, so that no further page
    /// needs to be asked for.
    pub fn has_failed(&self) -> (r: bool)
        ensures
            r == some_failed(self@),
    {
        let mut k: usize = 0;
        while k < self.slots.len()
            invariant
                k <= self.slots.len(),
                forall|j: int|
                    0 <= j < k ==> !((#[trigger] self.slots@[j]) is Some
                        && self.slots@[j]->Some_0 is Err),
            decreases self.slots.len() - k,
        {
            let failed = match &self.slots[k] {
                Some(outcome) => outcome.is_err(),
                None => false,
            };
            if failed {
                return true;
            }
            k += 1;
        }
        false
    }

    /// Ends the fetch on the pages that have arrived in a row. Where every
    /// page is there, the answer is the assembly of all; where one of those
    /// pages failed, it is the failure of the earliest of them, whatever is
    /// still missing behind it. Otherwise there is no answer yet.
    pub fn finish(self, first: T) -> (r: Option<Result<T, TvdbError>>)
        ensures
            r is Some <==> can_end(self@),
            r is Some ==> is_assembly(first, arrived_in_row(self@), r->Some_0),
    {
        let ghost whole = self.slots@;
        let mut rest = self.slots;
        let mut pages: Vec<Result<T, TvdbError>> = Vec::new();
        let mut failed = false;
        let mut done: usize = 0;
        let total: usize = rest.len();
        proof {
            assert(whole.take(0) =~= Seq::empty());
        }
        while done < total
            invariant
                whole == self@,
                total == whole.len(),
                done <= total,
                rest@ == whole.skip(done as int),
                pages@ == arrived_in_row(whole.take(done as int)),
                pages@.len() <= done,
                failed == !arrived_well_before(pages@, pages@.len() as int),
            decreases total - done,
        {
            let slot = rest.remove(0);
            let ghost so_far = pages@;
            proof {
                assert(slot == whole[done as int]);
                assert(whole.skip(done as int).remove(0) =~= whole.skip(done + 1));
                assert(whole.take(done + 1).drop_last() =~= whole.take(done as int));
                assert(whole.take(done + 1).last() == whole[done as int]);
            }
            if pages.len() == done {
                if let Some(outcome) = slot {
                    if outcome.is_err() {
                        failed = true;
                    }
                    pages.push(outcome);
                    proof {
                        assert(pages@[done as int] == outcome);
                        assert forall|j: int| 0 <= j < so_far.len() implies pages@[j]
                            == so_far[j] by {}
                        if arrived_well_before(so_far, so_far.len() as int) && outcome is Ok {
                            assert(arrived_well_before(pages@, pages@.len() as int));
                        }
                        if !arrived_well_before(so_far, so_far.len() as int) {
                            let j = choose|j: int|
                                0 <= j < so_far.len() && !((#[trigger] so_far[j]) is Ok);
                            assert(pages@[j] == so_far[j]);
                        }
                    }
                }
            }
            done += 1;
        }
        proof {
            assert(whole.take(total as int) =~= whole);
        }
        if pages.len() == total || failed {
            Some(assemble(first, pages))
        } else {
            None
        }
    }
}

/// The slots after the outcomes in `arrivals` were put, one after the
/// other; each arrival names its slot and brings its outcome.
pub open spec fn after_arrivals<T>(
    slots: Seq<Option<Result<T, TvdbError>>>,
    arrivals: Seq<(int, Result<T, TvdbError>)>,
) -> Seq<Option<Result<T, TvdbError>>>
    decreases arrivals.len(),
{
    if arrivals.len() == 0 {
        slots
    } else {
        after_arrivals(slots, arrivals.drop_last()).update(
            arrivals.last().0,
            Some(arrivals.last().1),
        )
    }
}

/// Whether every arrival names a slot there is, and no two name the same.
pub open spec fn arrivals_distinct<T>(
    slots: Seq<Option<Result<T, TvdbError>>>,
    arrivals: Seq<(int, Result<T, TvdbError>)>,
) -> bool {
    &&& forall|i: int| 0 <= i < arrivals.len() ==> 0 <= (#[trigger] arrivals[i]).0 < slots.len()
    &&& forall|i: int, j: int|
        0 <= i < j < arrivals.len() ==> (#[trigger] arrivals[i]).0 != (#[trigger] arrivals[j]).0
}

/// The slots do not remember the order of arrival: in whatever order the
/// pages come, each one's outcome stands in its own slot in the end.
pub proof fn lemma_arrival_order_irrelevant<T>(
    slots: Seq<Option<Result<T, TvdbError>>>,
    arrivals: Seq<(int, Result<T, TvdbError>)>,
    n: int,
)
    requires
        arrivals_distinct(slots, arrivals),
        0 <= n < arrivals.len(),
    ensures
        after_arrivals(slots, arrivals).len() == slots.len(),
        after_arrivals(slots, arrivals)[arrivals[n].0] == Some(arrivals[n].1),
    decreases arrivals.len(),
{
    let earlier = arrivals.drop_last();
    assert forall|i: int| 0 <= i < earlier.len() implies 0 <= (#[trigger] earlier[i]).0
        < slots.len() by {
        assert(earlier[i] == arrivals[i]);
    }
    assert forall|i: int, j: int| 0 <= i < j < earlier.len() implies (#[trigger] earlier[i]).0 != (
    #[trigger] earlier[j]).0 by {
        assert(earlier[i] == arrivals[i] && earlier[j] == arrivals[j]);
    }
    lemma_after_arrivals_len(slots, earlier);
    if n < earlier.len() {
        lemma_arrival_order_irrelevant(slots, earlier, n);
        assert(earlier[n] == arrivals[n]);
        assert(arrivals[n].0 != arrivals[arrivals.len() - 1].0);
    }
}

/// Putting outcomes into slots that there are leaves as many slots.
proof fn lemma_after_arrivals_len<T>(
    slots: Seq<Option<Result<T, TvdbError>>>,
    arrivals: Seq<(int, Result<T, TvdbError>)>,
)
    requires
        forall|i: int| 0 <= i < arrivals.len() ==> 0 <= (#[trigger] arrivals[i]).0 < slots.len(),
    ensures
        after_arrivals(slots, arrivals).len() == slots.len(),
    decreases arrivals.len(),
{
    if arrivals.len() > 0 {
        let earlier = arrivals.drop_last();
        assert forall|i: int| 0 <= i < earlier.len() implies 0 <= (#[trigger] earlier[i]).0
            < slots.len() by {
            assert(earlier[i] == arrivals[i]);
        }
        lemma_after_arrivals_len(slots, earlier);
        assert(0 <= arrivals[arrivals.len() - 1].0 < slots.len());
    }
}

} // verus!
