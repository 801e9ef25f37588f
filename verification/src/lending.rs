//! Checking a copy out and taking it back.
//!
//! A change runs in three steps. The cache first decides whether the change
//! may go ahead and, if so, hands out a [`Ticket`] and keeps the book busy.
//! The caller then writes the ticket's count to the remote store and appends
//! the access-log entry: the remote store is the record of truth, so nothing
//! is changed here before it agreed. At last the caller reports how the
//! writes ended, and the cache applies the count or leaves it.
//!
//! While a book is busy, every other change to it is told to wait. Two
//! checkouts can therefore never start from the same count.

use vstd::prelude::*;
use crate::book::Book;
use crate::cache::BookCache;
use crate::clock::{now_micros, utc_text, write_utc, YEAR_10000_MICROS};
use crate::error::{CacheError, NetworkError};
use crate::model::{proposed, AdmissionView, Direction, TicketView};
use crate::view::result_view;

verus! {

/// The right to write one change to the remote store.
#[derive(Debug)]
pub struct Ticket {
    book: Book,
    user_id: String,
    direction: Direction,
}

impl View for Ticket {
    type V = TicketView;

    closed spec fn view(&self) -> TicketView {
        TicketView { book: self.book@, user_id: self.user_id@, direction: self.direction }
    }
}

impl Ticket {
    #[verifier::type_invariant]
    spec fn book_in_range(self) -> bool {
        self.book@.counts_in_range()
    }

    /// The book as it will stand once the change is applied.
    pub fn book(&self) -> (r: &Book)
        ensures
            r@ == self@.book,
            r@.counts_in_range(),
    {
        proof {
            use_type_invariant(self);
        }
        &self.book
    }

    /// The identifier of the record to write to.
    pub fn book_id(&self) -> (r: &String)
        ensures
            r@ == self@.book.id,
    {
        self.book.id()
    }

    /// The count to write into the record's available copies.
    pub fn new_count(&self) -> (r: u64)
        ensures
            r == self@.book.number_available,
            r <= self@.book.number_in_stock,
    {
        self.book.number_available()
    }

    /// Who takes or brings the copy.
    pub fn user_id(&self) -> (r: &String)
        ensures
            r@ == self@.user_id,
    {
        &self.user_id
    }

    /// Whether the copy leaves or comes back.
    pub fn direction(&self) -> (r: Direction)
        ensures
            r == self@.direction,
    {
        self.direction
    }
}

/// What an [`AccessEntry`] stands for.
pub struct EntryView {
    pub user_id: Seq<char>,
    pub book_id: Seq<char>,
    pub timestamp: i64,
    pub direction: Direction,
}

/// One line of the access log: who moved a copy of which book, when, and
/// which way. Entries are handed to the remote store and not kept here.
#[derive(Debug, PartialEq, Eq)]
pub struct AccessEntry {
    user_id: String,
    book_id: String,
    timestamp: i64,
    direction: Direction,
}

impl View for AccessEntry {
    type V = EntryView;

    closed spec fn view(&self) -> EntryView {
        EntryView {
            user_id: self.user_id@,
            book_id: self.book_id@,
            timestamp: self.timestamp,
            direction: self.direction,
        }
    }
}

/// How the access log names a direction.
pub open spec fn label_of(direction: Direction) -> Seq<char> {
    match direction {
        Direction::CheckOut => "Checking out"@,
        Direction::Return => "Returning"@,
    }
}

/// How the access log names `direction`.
pub fn direction_label(direction: Direction) -> (r: &'static str)
    ensures
        r@ == label_of(direction),
{
    match direction {
        Direction::CheckOut => "Checking out",
        Direction::Return => "Returning",
    }
}

impl AccessEntry {
    /// The entry that says that `user_id` moved a copy of `book_id` at
    /// `timestamp`, in microseconds since the Unix epoch.
    pub fn new(user_id: String, book_id: String, timestamp: i64, direction: Direction) -> (r:
        AccessEntry)
        ensures
            r@ == (EntryView { user_id: user_id@, book_id: book_id@, timestamp, direction }),
    {
        AccessEntry { user_id, book_id, timestamp, direction }
    }

    /// Who moved the copy.
    pub fn user_id(&self) -> (r: &String)
        ensures
            r@ == self@.user_id,
    {
        &self.user_id
    }

    /// The book of which a copy moved.
    pub fn book_id(&self) -> (r: &String)
        ensures
            r@ == self@.book_id,
    {
        &self.book_id
    }

    /// When the copy moved, in microseconds since the Unix epoch.
    pub fn timestamp(&self) -> (r: i64)
        ensures
            r == self@.timestamp,
    {
        self.timestamp
    }

    /// Whether the copy left or came back.
    pub fn direction(&self) -> (r: Direction)
        ensures
            r == self@.direction,
    {
        self.direction
    }

    /// The entry's time as the log writes it; `None` for a time that the
    /// calendar cannot hold. There is a text for every time from 1970 to the
    /// end of the year 9999.
    pub fn date_text(&self) -> (r: Option<String>)
        ensures
            r is Some <==> utc_text(self@.timestamp) is Some,
            r matches Some(text) ==> text@ == utc_text(self@.timestamp)->0,
            0 <= self@.timestamp < YEAR_10000_MICROS ==> r is Some,
    {
        write_utc(self.timestamp)
    }
}

impl Ticket {
    /// The access-log entry of this change, made at `now`.
    pub fn access_entry_at(&self, now: i64) -> (r: AccessEntry)
        ensures
            r@ == (EntryView {
                user_id: self@.user_id,
                book_id: self@.book.id,
                timestamp: now,
                direction: self@.direction,
            }),
    {
        AccessEntry::new(self.user_id.clone(), self.book.id().clone(), now, self.direction)
    }

    /// The access-log entry of this change, made now by the system clock.
    pub fn access_entry(&self) -> (r: AccessEntry)
        ensures
            r@ == (EntryView {
                user_id: self@.user_id,
                book_id: self@.book.id,
                timestamp: r@.timestamp,
                direction: self@.direction,
            }),
    {
        self.access_entry_at(now_micros())
    }
}

/// The answer to a request that was not turned down.
#[derive(Debug)]
pub enum Admission {
    /// The change may be written to the remote store.
    Proceed(Ticket),
    /// Another change to the same book is in flight: ask again when it ended.
    Wait,
}

/// Whether `result` is the answer `expected`.
pub open spec fn is_admission(
    result: Result<Admission, CacheError>,
    expected: AdmissionView,
) -> bool {
    match expected {
        AdmissionView::NotFound => result matches Err(error) && error == CacheError::NotFound,
        AdmissionView::Conflict => result matches Err(error) && error == CacheError::Conflict,
        AdmissionView::Wait => result matches Ok(Admission::Wait),
        AdmissionView::Proceed(ticket) => result matches Ok(Admission::Proceed(given)) && given@
            == ticket,
    }
}

/// The count that `direction` proposes for `book`, where it lies within
/// `0..=in_stock`.
fn propose(book: &Book, direction: Direction) -> (r: Option<u64>)
    ensures
        match r {
            Some(count) => count == proposed(book@.number_available, direction) && count
                <= book@.number_in_stock,
            None => proposed(book@.number_available, direction) < 0 || proposed(
                book@.number_available,
                direction,
            ) > book@.number_in_stock,
        },
{
    let available = book.number_available();
    match direction {
        Direction::CheckOut => if available == 0 {
            None
        } else {
            Some(available - 1)
        },
        Direction::Return => if available >= book.number_in_stock() {
            None
        } else {
            Some(available + 1)
        },
    }
}

impl BookCache {
    fn request(&mut self, book_id: String, user_id: String, direction: Direction) -> (r: Result<
        Admission,
        CacheError,
    >)
        ensures
            is_admission(r, old(self)@.admission(book_id@, user_id@, direction)),
            final(self)@ == old(self)@.after_admission(book_id@, user_id@, direction),
            final(self)@.wf(),
    {
        let after = match self.peek(&book_id) {
            None => {
                return Err(CacheError::NotFound);
            },
            Some(book) => {
                if self.is_busy(&book_id) {
                    return Ok(Admission::Wait);
                }
                match propose(book, direction) {
                    None => {
                        return Err(CacheError::Conflict);
                    },
                    Some(count) => book.with_available(count).unwrap(),
                }
            },
        };
        self.hold(book_id);
        Ok(Admission::Proceed(Ticket { book: after, user_id, direction }))
    }

    /// Asks to check one copy of `book_id` out to `user_id`. The request is
    /// turned down with `NotFound` where the book is not cached and with
    /// `Conflict` where no copy is on the shelf; it is told to wait while
    /// another change to the book is in flight. Else the book is kept busy and
    /// the ticket says what to write. The cached books stay as they are.
    pub fn begin_checkout(&mut self, book_id: String, user_id: String) -> (r: Result<
        Admission,
        CacheError,
    >)
        ensures
            is_admission(r, old(self)@.admission(book_id@, user_id@, Direction::CheckOut)),
            final(self)@ == old(self)@.after_admission(book_id@, user_id@, Direction::CheckOut),
            final(self)@.wf(),
    {
        self.request(book_id, user_id, Direction::CheckOut)
    }

    /// Asks to take one copy of `book_id` back from `user_id`. The request is
    /// turned down with `NotFound` where the book is not cached and with
    /// `Conflict` where every copy in stock is on the shelf already; it is
    /// told to wait while another change to the book is in flight. Else the
    /// book is kept busy and the ticket says what to write.
    pub fn begin_return(&mut self, book_id: String, user_id: String) -> (r: Result<
        Admission,
        CacheError,
    >)
        ensures
            is_admission(r, old(self)@.admission(book_id@, user_id@, Direction::Return)),
            final(self)@ == old(self)@.after_admission(book_id@, user_id@, Direction::Return),
            final(self)@.wf(),
    {
        self.request(book_id, user_id, Direction::Return)
    }

    /// Ends the change of `ticket`, whose remote writes ended with `remote`.
    /// The book is busy no longer. Where a write failed, the cached books
    /// stay as they are and the network error is returned. Where both went
    /// through, the count is set and the book is returned as it now stands;
    /// if the book has left the cache meanwhile, or can no longer take the
    /// count, the change still counts as done, the book is returned as the
    /// ticket has it, and a resynchronisation is owed.
    pub fn complete_mutation(&mut self, ticket: Ticket, remote: Result<(), NetworkError>) -> (r:
        Result<Book, CacheError>)
        ensures
            result_view(r) == old(self)@.settlement(ticket@, remote),
            r matches Ok(book) ==> book@.counts_in_range(),
            final(self)@ == old(self)@.settled(ticket@, remote),
            final(self)@.wf(),
    {
        self.release(ticket.book_id());
        match remote {
            Err(error) => Err(CacheError::Network(error)),
            Ok(_) => {
                let count = ticket.new_count();
                match self.set_count(ticket.book_id(), count) {
                    Ok(book) => Ok(book),
                    Err(_) => {
                        self.owe_resync();
                        Ok(ticket.book)
                    },
                }
            },
        }
    }
}

} // verus!
