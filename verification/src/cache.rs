//! The cache itself: the books by identifier, the time of the last refresh,
//! and what is in flight.
//!
//! A [`BookCache`] is owned by one place. Reading it takes `&self`, so
//! readers may hold it together; a step that changes it takes `&mut self` and
//! holds it alone. Every operation here is short and makes no remote call, so
//! nobody is kept waiting on the network: the remote work that an operation
//! asks for is done by the caller between two operations.
//!
//! A reader first asks what to do ([`BookCache::begin_read`]). Told to serve,
//! it reads; a reader that holds the cache for reading only may learn as much
//! from [`BookCache::needs_refresh`]. Told to fetch, it walks the remote list
//! with a [`Listing`](crate::listing::Listing), ends the fetch with
//! [`BookCache::refresh_book_data`] or [`BookCache::refresh_failed`], and
//! reads. Told to join, it waits until the fetch that is under way has ended,
//! and reads. Reading ([`BookCache::get_books`] and its kin) never asks for
//! remote work: it hands out what is cached, marked as stale where the last
//! fetch failed or none ever succeeded.

use vstd::prelude::*;
use crate::book::{Book, BookView};
use crate::clock::now_micros;
use crate::error::{CacheError, RefreshError};
use crate::freshness::{is_stale, NEVER_REFRESHED, ONE_DAY_MICROS};
use crate::listing::Listing;
use crate::model::{
    all_in_range, books_by_id, distinct_ids, lemma_by_id_entry, lemma_by_id_keys,
    lemma_by_id_update, lists, CacheView, ReadStep,
};
use crate::view::views;

verus! {

/// Every book.
pub open spec fn any_book(book: BookView) -> bool {
    true
}

/// The books with a copy on the shelf.
pub open spec fn is_available(book: BookView) -> bool {
    book.number_available > 0
}

/// The books with a copy out of the house.
pub open spec fn is_checked_out(book: BookView) -> bool {
    book.number_available < book.number_in_stock
}

/// Data read from the cache, and whether it is served although the last
/// attempt to refresh it failed or none was ever made with success.
pub struct Served<T> {
    pub value: T,
    pub stale: bool,
}

/// Whether `answer` is what `cache` owes a reader that asks for the books
/// that `wanted` picks: the error of the last fetch where it failed and none
/// ever succeeded; else those books, each once, marked as stale where the
/// last fetch failed or none ever succeeded.
pub open spec fn serves(
    cache: CacheView,
    answer: Result<Served<Vec<Book>>, RefreshError>,
    wanted: spec_fn(BookView) -> bool,
) -> bool {
    match answer {
        Ok(served) => cache.hard_failure() is None && served.stale == cache.serves_stale()
            && lists(views(served.value@), cache.books, wanted),
        Err(error) => cache.hard_failure() == Some(error),
    }
}

/// The in-memory cache of the inventory.
pub struct BookCache {
    books: Vec<Book>,
    last_refresh: i64,
    ttl: i64,
    refreshing: bool,
    resync: bool,
    busy: Vec<String>,
    last_failure: Option<RefreshError>,
}

impl View for BookCache {
    type V = CacheView;

    closed spec fn view(&self) -> CacheView {
        CacheView {
            books: books_by_id(views(self.books@)),
            last_refresh: self.last_refresh as int,
            ttl: self.ttl as int,
            refreshing: self.refreshing,
            resync: self.resync,
            busy: views(self.busy@).to_set(),
            last_failure: self.last_failure,
        }
    }
}

/// Which books a reader asks for.
#[derive(Clone, Copy)]
enum Selection {
    All,
    Available,
    CheckedOut,
}

impl Selection {
    spec fn wants(self, book: BookView) -> bool {
        match self {
            Selection::All => any_book(book),
            Selection::Available => is_available(book),
            Selection::CheckedOut => is_checked_out(book),
        }
    }

    fn picks(self, book: &Book) -> (r: bool)
        ensures
            r == self.wants(book@),
    {
        match self {
            Selection::All => true,
            Selection::Available => book.number_available() > 0,
            Selection::CheckedOut => book.number_available() < book.number_in_stock(),
        }
    }
}

/// Where the book with identifier `id` stands in `books`, if it is there.
fn find(books: &Vec<Book>, id: &String) -> (r: Option<usize>)
    ensures
        match r {
            Some(i) => i < books.len() && views(books@)[i as int].id == id@,
            None => forall|j: int| 0 <= j < books.len() ==> (#[trigger] views(books@)[j]).id != id@,
        },
{
    let mut i: usize = 0;
    while i < books.len()
        invariant
            i <= books.len(),
            forall|j: int| 0 <= j < i ==> (#[trigger] views(books@)[j]).id != id@,
        decreases books.len() - i,
    {
        if *books[i].id() == *id {
            return Some(i);
        }
        i += 1;
    }
    None
}

/// Where `id` stands in `ids`, if it is there.
fn position(ids: &Vec<String>, id: &String) -> (r: Option<usize>)
    ensures
        match r {
            Some(i) => i < ids.len() && views(ids@)[i as int] == id@,
            None => !views(ids@).contains(id@),
        },
{
    let mut i: usize = 0;
    while i < ids.len()
        invariant
            i <= ids.len(),
            forall|j: int| 0 <= j < i ==> #[trigger] views(ids@)[j] != id@,
        decreases ids.len() - i,
    {
        if ids[i] == *id {
            return Some(i);
        }
        i += 1;
    }
    None
}

/// The books of `items` with each identifier once: where one occurs twice,
/// the later book stands.
fn by_id(items: &Vec<Book>) -> (r: Vec<Book>)
    ensures
        distinct_ids(views(r@)),
        all_in_range(views(r@)),
        books_by_id(views(r@)) == books_by_id(views(items@)),
{
    let mut kept: Vec<Book> = Vec::new();
    let ghost all = views(items@);
    for k in 0..items.len()
        invariant
            all == views(items@),
            distinct_ids(views(kept@)),
            all_in_range(views(kept@)),
            books_by_id(views(kept@)) == books_by_id(all.take(k as int)),
    {
        let book = items[k].clone();
        let ghost before = views(kept@);
        proof {
            assert(all.take(k + 1).drop_last() == all.take(k as int));
        }
        match find(&kept, book.id()) {
            Some(i) => {
                kept.set(i, book);
                proof {
                    assert(views(kept@) == before.update(i as int, book@));
                    lemma_by_id_update(before, i as int, book@);
                }
            },
            None => {
                kept.push(book);
                proof {
                    assert(views(kept@) == before.push(book@));
                    assert(views(kept@).drop_last() == before);
                }
            },
        }
    }
    assert(all.take(items.len() as int) == all);
    kept
}

/// Taking the one occurrence of an element out of a sequence takes the
/// element out of the set of its elements.
proof fn lemma_remove_to_set(ids: Seq<Seq<char>>, i: int)
    requires
        ids.no_duplicates(),
        0 <= i < ids.len(),
    ensures
        ids.remove(i).no_duplicates(),
        ids.remove(i).to_set() == ids.to_set().remove(ids[i]),
{
    let rest = ids.remove(i);
    assert forall|id: Seq<char>| rest.to_set().contains(id) == ids.to_set().remove(
        ids[i],
    ).contains(id) by {
        if rest.contains(id) {
            let j = choose|j: int| 0 <= j < rest.len() && rest[j] == id;
            assert(ids[if j < i { j } else { j + 1 }] == id);
        }
        if ids.contains(id) && id != ids[i] {
            let j = choose|j: int| 0 <= j < ids.len() && ids[j] == id;
            assert(rest[if j < i { j } else { j - 1 }] == id);
        }
    }
}

impl BookCache {
    #[verifier::type_invariant]
    spec fn inv(self) -> bool {
        &&& distinct_ids(views(self.books@))
        &&& all_in_range(views(self.books@))
        &&& views(self.busy@).no_duplicates()
    }

    /// An empty cache that keeps data for twenty-four hours.
    pub fn new() -> (r: BookCache)
        ensures
            r@ == CacheView::empty(ONE_DAY_MICROS as int),
    {
        BookCache::with_ttl(ONE_DAY_MICROS)
    }

    /// An empty cache that keeps data for `ttl` microseconds.
    pub fn with_ttl(ttl: i64) -> (r: BookCache)
        ensures
            r@ == CacheView::empty(ttl as int),
    {
        let r = BookCache {
            books: Vec::new(),
            last_refresh: NEVER_REFRESHED,
            ttl,
            refreshing: false,
            resync: false,
            busy: Vec::new(),
            last_failure: None,
        };
        assert(views(r.busy@).to_set() == Set::<Seq<char>>::empty());
        r
    }

    /// When the last full refresh succeeded, in microseconds since the Unix
    /// epoch; `NEVER_REFRESHED` before the first.
    pub fn last_refresh_time(&self) -> (r: i64)
        ensures
            r == self@.last_refresh,
    {
        self.last_refresh
    }

    /// Whether the data must be refreshed before it is served at `now`:
    /// whether it is older than the retention window, was never fetched, or
    /// is owed a resynchronisation. A reader that finds it fresh may read at
    /// once.
    pub fn needs_refresh_at(&self, now: i64) -> (r: bool)
        ensures
            r == self@.needs_refresh(now as int),
    {
        self.resync || is_stale(self.last_refresh, now, self.ttl)
    }

    /// Whether the data must be refreshed before it is served now, by the
    /// system clock.
    pub fn needs_refresh(&self) -> (r: bool)
        ensures
            exists|now: i64| r == #[trigger] self@.needs_refresh(now as int),
    {
        self.needs_refresh_at(now_micros())
    }

    /// Tells a reader that arrives at `now` what to do. A reader that is told
    /// to fetch owes the cache the end of that fetch: `refresh_book_data_at`
    /// or `refresh_failed`.
    pub fn begin_read_at(&mut self, now: i64) -> (step: ReadStep)
        ensures
            step == old(self)@.read_step(now as int),
            final(self)@ == old(self)@.after_read(now as int),
            final(self)@.wf(),
    {
        proof {
            use_type_invariant(&*self);
            lemma_by_id_keys(views(self.books@));
        }
        if !self.needs_refresh_at(now) {
            ReadStep::Serve
        } else if self.refreshing {
            ReadStep::Join
        } else {
            self.refreshing = true;
            ReadStep::Fetch
        }
    }

    /// Tells a reader that arrives now, by the system clock, what to do.
    pub fn begin_read(&mut self) -> (step: ReadStep)
        ensures
            exists|now: i64|
                step == #[trigger] old(self)@.read_step(now as int)
                    && final(self)@ == old(self)@.after_read(now as int),
            final(self)@.wf(),
    {
        let now = now_micros();
        self.begin_read_at(now)
    }

    /// Ends a fetch that went through. Where `listing` holds the whole remote
    /// list, its books replace the cached ones and `now` becomes the time of
    /// the last refresh. A listing that is not complete changes nothing and
    /// comes back.
    pub fn refresh_book_data_at(&mut self, listing: Listing<Book>, now: i64) -> (r: Result<
        (),
        Listing<Book>,
    >)
        ensures
            match r {
                Ok(_) => listing@.cursor is Done && final(self)@ == old(self)@.refreshed(
                    listing@.items,
                    now as int,
                ),
                Err(back) => !(listing@.cursor is Done) && back == listing && final(self)@
                    == old(self)@,
            },
            final(self)@.wf(),
    {
        proof {
            use_type_invariant(&*self);
            lemma_by_id_keys(views(self.books@));
        }
        match listing.into_items() {
            Err(back) => Err(back),
            Ok(items) => {
                let fresh = by_id(&items);
                proof {
                    lemma_by_id_keys(views(fresh@));
                }
                self.books = fresh;
                self.last_refresh = now;
                self.refreshing = false;
                self.resync = false;
                self.last_failure = None;
                Ok(())
            },
        }
    }

    /// Ends a fetch that went through now, by the system clock.
    pub fn refresh_book_data(&mut self, listing: Listing<Book>) -> (r: Result<(), Listing<Book>>)
        ensures
            match r {
                Ok(_) => listing@.cursor is Done && exists|now: i64|
                    final(self)@ == #[trigger] old(self)@.refreshed(listing@.items, now as int),
                Err(back) => !(listing@.cursor is Done) && back == listing && final(self)@
                    == old(self)@,
            },
            final(self)@.wf(),
    {
        let now = now_micros();
        self.refresh_book_data_at(listing, now)
    }

    /// Ends a fetch that failed. The books and the time of the last refresh
    /// stay as they are, so the next reader finds the data stale and fetches
    /// again.
    pub fn refresh_failed(&mut self, error: RefreshError)
        ensures
            final(self)@ == old(self)@.failed(error),
            final(self)@.wf(),
    {
        proof {
            use_type_invariant(&*self);
            lemma_by_id_keys(views(self.books@));
        }
        self.refreshing = false;
        self.last_failure = Some(error);
    }

    /// The books that `selection` picks, in the order in which they are kept.
    fn select(&self, selection: Selection) -> (r: Vec<Book>)
        ensures
            lists(views(r@), self@.books, |book: BookView| selection.wants(book)),
    {
        proof {
            use_type_invariant(self);
        }
        let mut picked: Vec<Book> = Vec::new();
        let ghost all = views(self.books@);
        let ghost mut origin: Seq<int> = Seq::empty();
        for k in 0..self.books.len()
            invariant
                all == views(self.books@),
                origin.len() == picked.len(),
                forall|p: int| 0 <= p < origin.len() ==> 0 <= #[trigger] origin[p] < k,
                forall|p: int, q: int| 0 <= p < q < origin.len() ==> origin[p] < origin[q],
                forall|p: int|
                    0 <= p < origin.len() ==> views(picked@)[p] == all[#[trigger] origin[p]],
                forall|p: int| 0 <= p < origin.len() ==> selection.wants(all[#[trigger] origin[p]]),
                forall|j: int|
                    0 <= j < k && selection.wants(#[trigger] all[j]) ==> exists|p: int|
                        0 <= p < origin.len() && #[trigger] origin[p] == j,
        {
            if selection.picks(&self.books[k]) {
                let ghost earlier = origin;
                picked.push(self.books[k].clone());
                proof {
                    origin = origin.push(k as int);
                    assert forall|j: int|
                        0 <= j < k + 1 && selection.wants(#[trigger] all[j]) implies exists|p: int|
                        0 <= p < origin.len() && #[trigger] origin[p] == j by {
                        if j < k {
                            let p = choose|p: int|
                                0 <= p < earlier.len() && #[trigger] earlier[p] == j;
                            assert(origin[p] == j);
                        } else {
                            assert(origin[origin.len() - 1] == j);
                        }
                    }
                }
            }
        }
        proof {
            let listed = views(picked@);
            let wanted = |book: BookView| selection.wants(book);
            lemma_by_id_keys(all);
            assert forall|i: int| 0 <= i < listed.len() implies self@.books.contains_key(
                #[trigger] listed[i].id,
            ) && self@.books[listed[i].id] == listed[i] && wanted(listed[i]) by {
                lemma_by_id_entry(all, origin[i]);
            }
            assert forall|i: int, j: int| 0 <= i < j < listed.len() implies #[trigger] listed[i].id
                != #[trigger] listed[j].id by {
                assert(all[origin[i]].id != all[origin[j]].id);
            }
            assert forall|id: Seq<char>| #[trigger]
                self@.books.contains_key(id) && wanted(self@.books[id]) implies exists|i: int|
                0 <= i < listed.len() && #[trigger] listed[i].id == id by {
                let j = choose|j: int| 0 <= j < all.len() && #[trigger] all[j].id == id;
                lemma_by_id_entry(all, j);
            }
        }
        picked
    }

    /// What readers are given in place of data, if anything.
    fn failure(&self) -> (r: Option<RefreshError>)
        ensures
            r == self@.hard_failure(),
    {
        if self.last_refresh == NEVER_REFRESHED {
            self.last_failure
        } else {
            None
        }
    }

    /// Whether what readers are given is marked as stale.
    fn marks_stale(&self) -> (r: bool)
        ensures
            r == self@.serves_stale(),
    {
        self.last_failure.is_some() || self.last_refresh == NEVER_REFRESHED
    }

    /// A copy of the books that `selection` picks, unless readers are owed an
    /// error.
    fn serve(&self, selection: Selection) -> (r: Result<Served<Vec<Book>>, RefreshError>)
        ensures
            serves(self@, r, |book: BookView| selection.wants(book)),
    {
        match self.failure() {
            Some(error) => Err(error),
            None => Ok(Served { value: self.select(selection), stale: self.marks_stale() }),
        }
    }

    /// A copy of every cached book, each once and in no particular order. The
    /// copy is the reader's own: later changes to the cache do not reach it.
    /// Where no refresh ever succeeded and the last one failed, that failure
    /// is returned in place of data.
    pub fn get_books(&self) -> (r: Result<Served<Vec<Book>>, RefreshError>)
        ensures
            serves(self@, r, |book: BookView| any_book(book)),
            self@.wf(),
    {
        proof {
            use_type_invariant(self);
            lemma_by_id_keys(views(self.books@));
        }
        self.serve(Selection::All)
    }

    /// A copy of the cached books of which a copy is on the shelf.
    pub fn get_available_books(&self) -> (r: Result<Served<Vec<Book>>, RefreshError>)
        ensures
            serves(self@, r, |book: BookView| is_available(book)),
            self@.wf(),
    {
        proof {
            use_type_invariant(self);
            lemma_by_id_keys(views(self.books@));
        }
        self.serve(Selection::Available)
    }

    /// A copy of the cached books of which a copy is out of the house.
    pub fn get_checked_out_books(&self) -> (r: Result<Served<Vec<Book>>, RefreshError>)
        ensures
            serves(self@, r, |book: BookView| is_checked_out(book)),
            self@.wf(),
    {
        proof {
            use_type_invariant(self);
            lemma_by_id_keys(views(self.books@));
        }
        self.serve(Selection::CheckedOut)
    }

    /// The cached book with identifier `id`, if there is one.
    pub(crate) fn peek(&self, id: &String) -> (r: Option<&Book>)
        ensures
            self@.wf(),
            match r {
                Some(book) => self@.books.contains_key(id@) && self@.books[id@] == book@,
                None => !self@.books.contains_key(id@),
            },
    {
        proof {
            use_type_invariant(self);
            lemma_by_id_keys(views(self.books@));
        }
        match find(&self.books, id) {
            Some(i) => {
                proof {
                    lemma_by_id_entry(views(self.books@), i as int);
                }
                Some(&self.books[i])
            },
            None => None,
        }
    }

    /// A copy of the cached book with identifier `book_id`.
    pub fn get_book(&self, book_id: String) -> (r: Result<Served<Book>, CacheError>)
        ensures
            self@.lookup(book_id@) == match r {
                Ok(served) => Ok::<BookView, CacheError>(served.value@),
                Err(error) => Err(error),
            },
            r matches Ok(served) ==> served.stale == self@.serves_stale()
                && served.value@.counts_in_range(),
    {
        match self.failure() {
            Some(error) => Err(CacheError::Refresh(error)),
            None => match self.peek(&book_id) {
                Some(book) => Ok(Served { value: book.clone(), stale: self.marks_stale() }),
                None => Err(CacheError::NotFound),
            },
        }
    }

    /// Sets the available count of the cached book `id` and returns a copy of
    /// the book as it then stands.
    pub(crate) fn set_count(&mut self, id: &String, count: u64) -> (r: Result<Book, CacheError>)
        ensures
            match r {
                Ok(book) => old(self)@.count_refusal(id@, count as nat) is None
                    && book@ == final(self)@.books[id@] && book@.counts_in_range(),
                Err(error) => old(self)@.count_refusal(id@, count as nat) == Some(error),
            },
            final(self)@ == old(self)@.with_count(id@, count as nat),
            final(self)@.wf(),
    {
        proof {
            use_type_invariant(&*self);
            lemma_by_id_keys(views(self.books@));
        }
        match find(&self.books, id) {
            None => Err(CacheError::NotFound),
            Some(i) => {
                proof {
                    lemma_by_id_entry(views(self.books@), i as int);
                }
                match self.books[i].with_available(count) {
                    None => Err(CacheError::Conflict),
                    Some(book) => {
                        let copy = book.clone();
                        let ghost before = views(self.books@);
                        proof {
                            lemma_by_id_update(before, i as int, book@);
                        }
                        let mut books: Vec<Book> = Vec::new();
                        std::mem::swap(&mut books, &mut self.books);
                        books.set(i, book);
                        proof {
                            assert(views(books@) == before.update(i as int, book@));
                            lemma_by_id_keys(views(books@));
                        }
                        self.books = books;
                        Ok(copy)
                    },
                }
            },
        }
    }

    /// Sets the available count of the cached book `book_id`. A book that is
    /// not cached is reported, and so is a count above the copies in stock;
    /// the cache then stays as it is.
    pub fn update_cached_number_available(&mut self, book_id: String, number_available: u64) -> (r:
        Result<(), CacheError>)
        ensures
            match r {
                Ok(_) => old(self)@.count_refusal(book_id@, number_available as nat) is None,
                Err(error) => old(self)@.count_refusal(book_id@, number_available as nat) == Some(
                    error,
                ),
            },
            final(self)@ == old(self)@.with_count(book_id@, number_available as nat),
            final(self)@.wf(),
    {
        match self.set_count(&book_id, number_available) {
            Ok(_) => Ok(()),
            Err(error) => Err(error),
        }
    }

    /// Whether a checkout or a return of the book `id` is in flight.
    pub(crate) fn is_busy(&self, id: &String) -> (r: bool)
        ensures
            r == self@.busy.contains(id@),
    {
        position(&self.busy, id).is_some()
    }

    /// Marks the book `id` as having a change in flight.
    pub(crate) fn hold(&mut self, id: String)
        requires
            !old(self)@.busy.contains(id@),
        ensures
            final(self)@ == (CacheView { busy: old(self)@.busy.insert(id@), ..old(self)@ }),
            final(self)@.wf(),
    {
        proof {
            use_type_invariant(&*self);
            lemma_by_id_keys(views(self.books@));
        }
        let ghost before = views(self.busy@);
        let mut busy: Vec<String> = Vec::new();
        std::mem::swap(&mut busy, &mut self.busy);
        busy.push(id);
        proof {
            assert(views(busy@) == before.push(id@));
            before.lemma_push_to_set_commute(id@);
        }
        self.busy = busy;
    }

    /// Marks the book `id` as having no change in flight.
    pub(crate) fn release(&mut self, id: &String)
        ensures
            final(self)@ == (CacheView { busy: old(self)@.busy.remove(id@), ..old(self)@ }),
            final(self)@.wf(),
    {
        proof {
            use_type_invariant(&*self);
            lemma_by_id_keys(views(self.books@));
        }
        let ghost before = views(self.busy@);
        match position(&self.busy, id) {
            None => {
                assert(before.to_set().remove(id@) == before.to_set());
            },
            Some(i) => {
                let mut busy: Vec<String> = Vec::new();
                std::mem::swap(&mut busy, &mut self.busy);
                busy.remove(i);
                proof {
                    assert(views(busy@) == before.remove(i as int));
                    lemma_remove_to_set(before, i as int);
                }
                self.busy = busy;
            },
        }
    }

    /// Marks the cache as owing a resynchronisation: the next reader fetches,
    /// however young the data is.
    pub(crate) fn owe_resync(&mut self)
        ensures
            final(self)@ == (CacheView { resync: true, ..old(self)@ }),
            final(self)@.wf(),
    {
        proof {
            use_type_invariant(&*self);
            lemma_by_id_keys(views(self.books@));
        }
        self.resync = true;
    }
}

} // verus!
