//! What holds of the cache whatever it is asked.
//!
//! Each law is stated over the model of the cache and proved from the
//! definitions there. The executable cache computes the model's functions, so
//! what holds of the model holds of every run.

use vstd::prelude::*;
use crate::book::BookView;
use crate::error::{NetworkError, RefreshError};
use crate::freshness::NEVER_REFRESHED;
use crate::listing::{cursor_after, CursorView, ListingView};
use crate::model::{
    all_in_range, books_by_id, distinct_ids, lemma_by_id_entry, lemma_by_id_keys, AdmissionView,
    CacheView, Direction, ReadStep, TicketView,
};

verus! {

/// The cache after readers arrived one after another at `times`, with nothing
/// else happening in between.
pub open spec fn after_reads(cache: CacheView, times: Seq<int>) -> CacheView
    decreases times.len(),
{
    if times.len() == 0 {
        cache
    } else {
        after_reads(cache, times.drop_last()).after_read(times.last())
    }
}

/// What each of those readers was told to do.
pub open spec fn read_steps(cache: CacheView, times: Seq<int>) -> Seq<ReadStep>
    decreases times.len(),
{
    if times.len() == 0 {
        Seq::empty()
    } else {
        read_steps(cache, times.drop_last()).push(
            after_reads(cache, times.drop_last()).read_step(times.last()),
        )
    }
}

/// How many of `steps` tell a reader to fetch.
pub open spec fn fetches(steps: Seq<ReadStep>) -> nat
    decreases steps.len(),
{
    if steps.len() == 0 {
        0
    } else {
        fetches(steps.drop_last()) + if steps.last() is Fetch {
            1nat
        } else {
            0nat
        }
    }
}

/// Freshness. After a refresh that succeeded at `refreshed_at`, any number of
/// readers that arrive within the retention window are all served from the
/// cache: none is told to fetch, and the cache stays as the refresh left it.
///
/// A refresh at the very microsecond that stands for "never refreshed" is left
/// out: the cache cannot tell it from no refresh at all.
pub proof fn lemma_fresh_reads_fetch_nothing(
    cache: CacheView,
    books: Seq<BookView>,
    refreshed_at: int,
    times: Seq<int>,
)
    requires
        refreshed_at != NEVER_REFRESHED,
        forall|i: int| 0 <= i < times.len() ==> #[trigger] times[i] <= refreshed_at + cache.ttl,
    ensures
        after_reads(cache.refreshed(books, refreshed_at), times) == cache.refreshed(
            books,
            refreshed_at,
        ),
        read_steps(cache.refreshed(books, refreshed_at), times).len() == times.len(),
        forall|i: int|
            0 <= i < times.len() ==> #[trigger] read_steps(
                cache.refreshed(books, refreshed_at),
                times,
            )[i] == ReadStep::Serve,
        fetches(read_steps(cache.refreshed(books, refreshed_at), times)) == 0,
    decreases times.len(),
{
    if times.len() > 0 {
        let fresh = cache.refreshed(books, refreshed_at);
        lemma_fresh_reads_fetch_nothing(cache, books, refreshed_at, times.drop_last());
        assert(read_steps(fresh, times).drop_last() == read_steps(fresh, times.drop_last()));
    }
}

/// Coalescing. When readers arrive one after another at a cache that is in
/// need of a refresh and has no fetch in flight, and the fetch does not end
/// before the last of them arrived, exactly one of them is told to fetch: the
/// first. Every other is told to join that fetch. Whatever the fetch brings,
/// it brings once: when it ends with `books`, the cache holds those books and
/// no others, and that one state is what every one of the readers then reads.
pub proof fn lemma_stale_reads_share_one_fetch(
    cache: CacheView,
    times: Seq<int>,
    books: Seq<BookView>,
    ended_at: int,
)
    requires
        !cache.refreshing,
        times.len() >= 1,
        forall|i: int| 0 <= i < times.len() ==> cache.needs_refresh(#[trigger] times[i]),
    ensures
        read_steps(cache, times).len() == times.len(),
        read_steps(cache, times)[0] == ReadStep::Fetch,
        forall|i: int|
            1 <= i < times.len() ==> #[trigger] read_steps(cache, times)[i] == ReadStep::Join,
        fetches(read_steps(cache, times)) == 1,
        after_reads(cache, times) == (CacheView { refreshing: true, ..cache }),
        after_reads(cache, times).refreshed(books, ended_at).books == books_by_id(books),
    decreases times.len(),
{
    let earlier = times.drop_last();
    assert(read_steps(cache, times).drop_last() == read_steps(cache, earlier));
    if earlier.len() == 0 {
        assert(fetches(read_steps(cache, earlier)) == 0);
    } else {
        lemma_stale_reads_share_one_fetch(cache, earlier, books, ended_at);
    }
}

/// The invariant. Every step of the cache keeps every book filed under its
/// own identifier, with no more copies available than in stock: the empty
/// cache has it, and a read, a refresh with books that have it, a failed
/// refresh, a new count, a request and the end of a change all keep it.
pub proof fn lemma_every_step_keeps_counts_in_range(
    cache: CacheView,
    ttl: int,
    now: int,
    books: Seq<BookView>,
    error: RefreshError,
    id: Seq<char>,
    user_id: Seq<char>,
    count: nat,
    direction: Direction,
    ticket: TicketView,
    remote: Result<(), NetworkError>,
)
    requires
        cache.wf(),
        all_in_range(books),
    ensures
        CacheView::empty(ttl).wf(),
        cache.after_read(now).wf(),
        cache.refreshed(books, now).wf(),
        cache.failed(error).wf(),
        cache.with_count(id, count).wf(),
        cache.after_admission(id, user_id, direction).wf(),
        cache.settled(ticket, remote).wf(),
        cache.admission(id, user_id, direction) matches AdmissionView::Proceed(given)
            ==> given.book.counts_in_range(),
{
    lemma_by_id_keys(books);
}

/// The round trip. Where a checkout is let through and its writes succeed,
/// the return of the same copy that follows it, with no refresh in between,
/// is let through as well; and where its writes succeed too, the cache is
/// what it was before the checkout. The available count in particular is
/// what it was.
pub proof fn lemma_checkout_then_return_restores(
    cache: CacheView,
    id: Seq<char>,
    user_id: Seq<char>,
)
    requires
        cache.wf(),
        cache.admission(id, user_id, Direction::CheckOut) is Proceed,
    ensures
        ({
            let out = cache.admission(id, user_id, Direction::CheckOut)->Proceed_0;
            let lent = cache.after_admission(id, user_id, Direction::CheckOut).settled(
                out,
                Ok(()),
            );
            let back = lent.admission(id, user_id, Direction::Return);
            let restored = lent.after_admission(id, user_id, Direction::Return).settled(
                back->Proceed_0,
                Ok(()),
            );
            &&& lent.books[id].number_available == cache.books[id].number_available - 1
            &&& back is Proceed
            &&& restored.books[id].number_available == cache.books[id].number_available
            &&& restored == cache
        }),
{
    let out = cache.admission(id, user_id, Direction::CheckOut)->Proceed_0;
    let held = cache.after_admission(id, user_id, Direction::CheckOut);
    let lent = held.settled(out, Ok(()));
    let back = lent.admission(id, user_id, Direction::Return);
    let held_again = lent.after_admission(id, user_id, Direction::Return);
    let restored = held_again.settled(back->Proceed_0, Ok(()));
    assert(held_again.busy.remove(id) == cache.busy);
    assert(restored.books == cache.books);
}

/// One change at a time. A change that is let through makes its book busy, and
/// while a book is busy no other change to it is let through: the second
/// checkout of a copy cannot start from the count that the first one started
/// from. The book stays busy through every step of the cache but the end of
/// its own change.
pub proof fn lemma_busy_book_takes_no_second_change(
    cache: CacheView,
    id: Seq<char>,
    user_id: Seq<char>,
    direction: Direction,
    now: int,
    books: Seq<BookView>,
    error: RefreshError,
    count: nat,
    other: TicketView,
    remote: Result<(), NetworkError>,
)
    ensures
        cache.admission(id, user_id, direction) is Proceed ==> cache.after_admission(
            id,
            user_id,
            direction,
        ).busy.contains(id),
        cache.busy.contains(id) ==> ({
            &&& !(cache.admission(id, user_id, direction) is Proceed)
            &&& cache.after_read(now).busy.contains(id)
            &&& cache.refreshed(books, now).busy.contains(id)
            &&& cache.failed(error).busy.contains(id)
            &&& cache.with_count(other.book.id, count).busy.contains(id)
            &&& cache.after_admission(other.book.id, other.user_id, other.direction).busy.contains(
                id,
            )
            &&& other.book.id != id ==> cache.settled(other, remote).busy.contains(id)
        }),
{
}

/// Recovery. Where the remote writes of a change went through but the cache
/// could not take the count, the cache owes a resynchronisation: the next
/// reader is not served from it, however young the data is. And a full
/// refresh puts every fetched book in place as the remote store has it,
/// whatever the cache held before.
pub proof fn lemma_refresh_reconciles(
    cache: CacheView,
    ticket: TicketView,
    now: int,
    books: Seq<BookView>,
    i: int,
)
    requires
        distinct_ids(books),
        0 <= i < books.len(),
    ensures
        cache.count_refusal(ticket.book.id, ticket.book.number_available) is Some ==> cache.settled(
            ticket,
            Ok(()),
        ).read_step(now) != ReadStep::Serve,
        cache.refreshed(books, now).books.contains_key(books[i].id),
        cache.refreshed(books, now).books[books[i].id] == books[i],
        !cache.refreshed(books, now).resync,
{
    lemma_by_id_entry(books, i);
}

/// What one answer of the remote store gave: the items that could be read
/// from its records, and the cursor it carried, if any.
pub struct Answer<V> {
    pub items: Seq<V>,
    pub offset: Option<Seq<char>>,
}

/// The listing after `answers` were taken in one after another.
pub open spec fn walked<V>(start: ListingView<V>, answers: Seq<Answer<V>>) -> ListingView<V>
    decreases answers.len(),
{
    if answers.len() == 0 {
        start
    } else {
        walked(start, answers.drop_last()).absorbed(answers.last().items, answers.last().offset)
    }
}

/// The items of `answers`, one answer after another.
pub open spec fn gathered<V>(answers: Seq<Answer<V>>) -> Seq<V>
    decreases answers.len(),
{
    if answers.len() == 0 {
        Seq::empty()
    } else {
        gathered(answers.drop_last()) + answers.last().items
    }
}

/// The walk. A listing that starts with nothing and takes in the answers to
/// its requests, of which every one but the last carries a cursor, asks for
/// each page with the cursor of the answer before it, holds the items of
/// every answer in order, and is done exactly when the answer without a
/// cursor was taken in.
pub proof fn lemma_walk_gathers_every_page<V>(answers: Seq<Answer<V>>)
    requires
        forall|i: int| 0 <= i < answers.len() - 1 ==> (#[trigger] answers[i]).offset is Some,
    ensures
        walked(ListingView { items: Seq::empty(), cursor: CursorView::First }, answers).items
            == gathered(answers),
        walked(ListingView { items: Seq::empty(), cursor: CursorView::First }, answers).cursor
            == if answers.len() == 0 {
            CursorView::First
        } else {
            cursor_after(answers.last().offset)
        },
    decreases answers.len(),
{
    if answers.len() > 0 {
        let earlier = answers.drop_last();
        lemma_walk_gathers_every_page(earlier);
        if earlier.len() > 0 {
            assert(earlier.last() == answers[earlier.len() - 1]);
        }
    }
}

} // verus!
