//! The cache as a state machine over mathematical values.
//!
//! Everything the cache promises is stated here, over maps, sets and
//! integers. The executable cache refines this model step by step: each of its
//! operations says which of these functions it computes.

use vstd::prelude::*;
use crate::book::BookView;
use crate::error::{CacheError, NetworkError, RefreshError};
use crate::freshness::{stale, NEVER_REFRESHED};

verus! {

/// What a reader has to do before it is served.
#[derive(Clone, Copy, Debug, PartialEq, Eq, Structural)]
pub enum ReadStep {
    /// The cached data is fresh: read it, no remote call is made.
    Serve,
    /// The cached data is stale and nobody is fetching: this reader fetches,
    /// and reports how the fetch ended.
    Fetch,
    /// The cached data is stale and a fetch is in flight: wait for it to end.
    Join,
}

/// Whether a copy leaves the shelf or comes back to it.
#[derive(Clone, Copy, Debug, PartialEq, Eq, Structural)]
pub enum Direction {
    CheckOut,
    Return,
}

/// The books of `books` by identifier. Where an identifier occurs twice, the
/// later book stands.
pub open spec fn books_by_id(books: Seq<BookView>) -> Map<Seq<char>, BookView>
    decreases books.len(),
{
    if books.len() == 0 {
        Map::empty()
    } else {
        books_by_id(books.drop_last()).insert(books.last().id, books.last())
    }
}

/// No two books of `books` share an identifier.
pub open spec fn distinct_ids(books: Seq<BookView>) -> bool {
    forall|i: int, j: int|
        0 <= i < j < books.len() ==> #[trigger] books[i].id != #[trigger] books[j].id
}

/// Every book of `books` has no more copies available than in stock.
pub open spec fn all_in_range(books: Seq<BookView>) -> bool {
    forall|i: int| 0 <= i < books.len() ==> (#[trigger] books[i]).counts_in_range()
}

/// Whether `listed` holds the books of `books` that `wanted` picks: each of
/// them once, and no other.
pub open spec fn lists(
    listed: Seq<BookView>,
    books: Map<Seq<char>, BookView>,
    wanted: spec_fn(BookView) -> bool,
) -> bool {
    &&& forall|i: int|
        0 <= i < listed.len() ==> books.contains_key(#[trigger] listed[i].id) && books[listed[i].id]
            == listed[i] && wanted(listed[i])
    &&& distinct_ids(listed)
    &&& forall|id: Seq<char>| #[trigger]
        books.contains_key(id) && wanted(books[id]) ==> exists|i: int|
            0 <= i < listed.len() && #[trigger] listed[i].id == id
}

/// The count that a checkout or a return proposes for a book with
/// `available` copies on the shelf.
pub open spec fn proposed(available: nat, direction: Direction) -> int {
    match direction {
        Direction::CheckOut => available - 1,
        Direction::Return => (available + 1) as int,
    }
}

/// A change that was let through: the book as it will stand once the change
/// is applied, who asked for it, and which way it goes.
pub struct TicketView {
    pub book: BookView,
    pub user_id: Seq<char>,
    pub direction: Direction,
}

/// How a request for a checkout or a return is answered.
pub enum AdmissionView {
    /// No book with that identifier is cached.
    NotFound,
    /// Another change to the same book is in flight: come back when it ended.
    Wait,
    /// The proposed count lies outside `0..=in_stock`.
    Conflict,
    /// The change may be written to the remote store.
    Proceed(TicketView),
}

/// The state of the cache.
pub struct CacheView {
    /// The cached books, by identifier.
    pub books: Map<Seq<char>, BookView>,
    /// When the last full refresh succeeded; `NEVER_REFRESHED` before the
    /// first.
    pub last_refresh: int,
    /// The retention window.
    pub ttl: int,
    /// Whether a remote fetch is in flight.
    pub refreshing: bool,
    /// Whether a resynchronisation is owed whatever the age of the data.
    pub resync: bool,
    /// The books that have a checkout or a return in flight.
    pub busy: Set<Seq<char>>,
    /// How the last refresh failed, if none succeeded since.
    pub last_failure: Option<RefreshError>,
}

impl CacheView {
    /// Every book is filed under its own identifier and has no more copies
    /// available than in stock.
    pub open spec fn wf(self) -> bool {
        forall|id: Seq<char>| #[trigger]
            self.books.contains_key(id) ==> self.books[id].id == id
                && self.books[id].counts_in_range()
    }

    /// The cache at start: no books, never refreshed, nothing in flight.
    pub open spec fn empty(ttl: int) -> CacheView {
        CacheView {
            books: Map::empty(),
            last_refresh: NEVER_REFRESHED as int,
            ttl,
            refreshing: false,
            resync: false,
            busy: Set::empty(),
            last_failure: None,
        }
    }

    /// Whether the data must be refreshed before it is served at `now`.
    pub open spec fn needs_refresh(self, now: int) -> bool {
        self.resync || stale(self.last_refresh, now, self.ttl)
    }

    /// What a reader that arrives at `now` has to do.
    pub open spec fn read_step(self, now: int) -> ReadStep {
        if !self.needs_refresh(now) {
            ReadStep::Serve
        } else if self.refreshing {
            ReadStep::Join
        } else {
            ReadStep::Fetch
        }
    }

    /// The state after a reader arrived at `now`: the reader that is told to
    /// fetch puts a fetch in flight.
    pub open spec fn after_read(self, now: int) -> CacheView {
        if self.read_step(now) is Fetch {
            CacheView { refreshing: true, ..self }
        } else {
            self
        }
    }

    /// The state after a fetch that ended at `now` brought the whole list
    /// `books`: the books are replaced wholesale and `now` is recorded.
    pub open spec fn refreshed(self, books: Seq<BookView>, now: int) -> CacheView {
        CacheView {
            books: books_by_id(books),
            last_refresh: now,
            refreshing: false,
            resync: false,
            last_failure: None,
            ..self
        }
    }

    /// The state after a fetch failed with `error`: the books and the time of
    /// the last refresh stay as they are.
    pub open spec fn failed(self, error: RefreshError) -> CacheView {
        CacheView { refreshing: false, last_failure: Some(error), ..self }
    }

    /// The error that readers get in place of data: that of the last fetch,
    /// where it failed and none ever succeeded.
    pub open spec fn hard_failure(self) -> Option<RefreshError> {
        if self.last_refresh == NEVER_REFRESHED {
            self.last_failure
        } else {
            None
        }
    }

    /// Whether data is served with the mark "stale": the last fetch failed, or
    /// none ever succeeded.
    pub open spec fn serves_stale(self) -> bool {
        self.last_failure is Some || self.last_refresh == NEVER_REFRESHED
    }

    /// What a reader that asks for the book `id` is given.
    pub open spec fn lookup(self, id: Seq<char>) -> Result<BookView, CacheError> {
        match self.hard_failure() {
            Some(error) => Err(CacheError::Refresh(error)),
            None => if self.books.contains_key(id) {
                Ok(self.books[id])
            } else {
                Err(CacheError::NotFound)
            },
        }
    }

    /// Why the available count of `id` cannot be set to `count`, if it cannot.
    pub open spec fn count_refusal(self, id: Seq<char>, count: nat) -> Option<CacheError> {
        if !self.books.contains_key(id) {
            Some(CacheError::NotFound)
        } else if count > self.books[id].number_in_stock {
            Some(CacheError::Conflict)
        } else {
            None
        }
    }

    /// The state after the available count of `id` was set to `count`, where
    /// that is possible; the same state where it is not.
    pub open spec fn with_count(self, id: Seq<char>, count: nat) -> CacheView {
        if self.count_refusal(id, count) is None {
            CacheView { books: self.books.insert(id, self.books[id].with_available(count)), ..self }
        } else {
            self
        }
    }

    /// How a request of `user_id` to move one copy of `id` is answered.
    pub open spec fn admission(
        self,
        id: Seq<char>,
        user_id: Seq<char>,
        direction: Direction,
    ) -> AdmissionView {
        if !self.books.contains_key(id) {
            AdmissionView::NotFound
        } else if self.busy.contains(id) {
            AdmissionView::Wait
        } else {
            let count = proposed(self.books[id].number_available, direction);
            if count < 0 || count > self.books[id].number_in_stock {
                AdmissionView::Conflict
            } else {
                AdmissionView::Proceed(
                    TicketView {
                        book: self.books[id].with_available(count as nat),
                        user_id,
                        direction,
                    },
                )
            }
        }
    }

    /// The state after that request: a change that is let through keeps its
    /// book busy; any other answer changes nothing.
    pub open spec fn after_admission(
        self,
        id: Seq<char>,
        user_id: Seq<char>,
        direction: Direction,
    ) -> CacheView {
        if self.admission(id, user_id, direction) is Proceed {
            CacheView { busy: self.busy.insert(id), ..self }
        } else {
            self
        }
    }

    /// The state after the remote writes of `ticket` ended with `remote`. The
    /// book is no longer busy. A failed write leaves the books alone. After a
    /// write that went through, the count is set where the book is still
    /// cached and can take it; where it is not, a resynchronisation is owed.
    pub open spec fn settled(
        self,
        ticket: TicketView,
        remote: Result<(), NetworkError>,
    ) -> CacheView {
        let released = CacheView { busy: self.busy.remove(ticket.book.id), ..self };
        match remote {
            Err(_) => released,
            Ok(_) => if released.count_refusal(ticket.book.id, ticket.book.number_available)
                is None {
                released.with_count(ticket.book.id, ticket.book.number_available)
            } else {
                CacheView { resync: true, ..released }
            },
        }
    }

    /// What the caller of the change is told: the network error of a failed
    /// write; else the book as it now stands in the cache or, where the cache
    /// could not take the count, as the ticket has it.
    pub open spec fn settlement(
        self,
        ticket: TicketView,
        remote: Result<(), NetworkError>,
    ) -> Result<BookView, CacheError> {
        match remote {
            Err(error) => Err(CacheError::Network(error)),
            Ok(_) => if self.count_refusal(ticket.book.id, ticket.book.number_available) is None {
                Ok(self.books[ticket.book.id].with_available(ticket.book.number_available))
            } else {
                Ok(ticket.book)
            },
        }
    }
}

/// The identifiers under which `books_by_id` files books are those of the
/// books, and each book is filed under its own.
pub proof fn lemma_by_id_keys(books: Seq<BookView>)
    ensures
        forall|id: Seq<char>| #[trigger]
            books_by_id(books).contains_key(id) <==> exists|i: int|
                0 <= i < books.len() && #[trigger] books[i].id == id,
        forall|id: Seq<char>| #[trigger]
            books_by_id(books).contains_key(id) ==> books_by_id(books)[id].id == id,
        all_in_range(books) ==> forall|id: Seq<char>| #[trigger]
            books_by_id(books).contains_key(id) ==> books_by_id(books)[id].counts_in_range(),
    decreases books.len(),
{
    if books.len() > 0 {
        let earlier = books.drop_last();
        lemma_by_id_keys(earlier);
        assert forall|id: Seq<char>| #[trigger]
            books_by_id(books).contains_key(id) implies exists|i: int|
            0 <= i < books.len() && #[trigger] books[i].id == id by {
            if id != books.last().id {
                assert(books_by_id(earlier).contains_key(id));
            }
        }
        assert forall|id: Seq<char>|
            (exists|i: int| 0 <= i < books.len() && #[trigger] books[i].id == id)
            implies #[trigger] books_by_id(books).contains_key(id) by {
            let i = choose|i: int| 0 <= i < books.len() && #[trigger] books[i].id == id;
            if i < books.len() - 1 {
                assert(earlier[i].id == id);
                assert(books_by_id(earlier).contains_key(id));
            }
        }
        assert forall|id: Seq<char>| #[trigger]
            books_by_id(books).contains_key(id) implies books_by_id(books)[id].id == id by {
            if id != books.last().id {
                assert(books_by_id(earlier).contains_key(id));
            }
        }
        if all_in_range(books) {
            assert(all_in_range(earlier));
            assert forall|id: Seq<char>| #[trigger]
                books_by_id(books).contains_key(id)
                implies books_by_id(books)[id].counts_in_range() by {
                if id != books.last().id {
                    assert(books_by_id(earlier).contains_key(id));
                }
            }
        }
    }
}

/// Where no identifier occurs twice, each book is what `books_by_id` files
/// under its identifier.
pub proof fn lemma_by_id_entry(books: Seq<BookView>, i: int)
    requires
        distinct_ids(books),
        0 <= i < books.len(),
    ensures
        books_by_id(books).contains_key(books[i].id),
        books_by_id(books)[books[i].id] == books[i],
    decreases books.len(),
{
    if i < books.len() - 1 {
        let earlier = books.drop_last();
        assert(distinct_ids(earlier));
        lemma_by_id_entry(earlier, i);
    }
}

/// Where no identifier occurs twice, putting another book in the place of the
/// one with its identifier files that book in its place.
pub proof fn lemma_by_id_update(books: Seq<BookView>, i: int, book: BookView)
    requires
        distinct_ids(books),
        0 <= i < books.len(),
        book.id == books[i].id,
    ensures
        distinct_ids(books.update(i, book)),
        books_by_id(books.update(i, book)) == books_by_id(books).insert(book.id, book),
    decreases books.len(),
{
    let updated = books.update(i, book);
    let earlier = books.drop_last();
    assert(distinct_ids(updated));
    if i == books.len() - 1 {
        assert(updated.drop_last() == earlier);
    } else {
        assert(distinct_ids(earlier));
        lemma_by_id_update(earlier, i, book);
        assert(updated.drop_last() == earlier.update(i, book));
    }
}

} // verus!
