//! Walking a paginated remote list.
//!
//! The remote store hands out a list page by page. The first page is asked for
//! without a cursor; each answer carries the cursor of the page that follows,
//! and the answer without one is the last. A [`Listing`] keeps what the pages
//! held so far and says which page to ask for next. The caller fetches; the
//! listing decides.

use vstd::prelude::*;
use crate::book::{ArchiveUser, Book};
use crate::records::{
    book_outcomes, kept, left_out, parse_books, parse_users, user_outcomes, AirtableResponse,
    Skipped,
};
use crate::view::views;

verus! {

/// Where a listing stands.
#[derive(Debug, PartialEq, Eq)]
pub enum Cursor {
    /// Nothing was fetched yet: ask for the first page, without a cursor.
    First,
    /// Ask for the page that this cursor addresses.
    After(String),
    /// The last page was taken in: there is nothing left to ask for.
    Done,
}

/// What a [`Cursor`] stands for.
pub enum CursorView {
    First,
    After(Seq<char>),
    Done,
}

impl View for Cursor {
    type V = CursorView;

    open spec fn view(&self) -> CursorView {
        match self {
            Cursor::First => CursorView::First,
            Cursor::After(offset) => CursorView::After(offset@),
            Cursor::Done => CursorView::Done,
        }
    }
}

/// The cursor that an answer with `offset` leaves.
pub open spec fn cursor_after(offset: Option<Seq<char>>) -> CursorView {
    match offset {
        Some(next) => CursorView::After(next),
        None => CursorView::Done,
    }
}

/// What a [`Listing`] stands for: the items of the pages taken in so far, in
/// order and each by its view, and where the walk stands.
pub struct ListingView<V> {
    pub items: Seq<V>,
    pub cursor: CursorView,
}

impl<V> ListingView<V> {
    /// The listing after a page that held `items` and carried `offset`. A
    /// listing that is done takes nothing more in.
    pub open spec fn absorbed(self, items: Seq<V>, offset: Option<Seq<char>>) -> ListingView<V> {
        if self.cursor is Done {
            self
        } else {
            ListingView { items: self.items + items, cursor: cursor_after(offset) }
        }
    }
}

/// The items of a remote list, gathered page by page.
pub struct Listing<T> {
    items: Vec<T>,
    cursor: Cursor,
}

impl<T: View> View for Listing<T> {
    type V = ListingView<T::V>;

    closed spec fn view(&self) -> ListingView<T::V> {
        ListingView { items: views(self.items@), cursor: self.cursor@ }
    }
}

impl<T: View> Listing<T> {
    /// A listing of which nothing was fetched yet.
    pub fn new() -> (r: Self)
        ensures
            r@ == (ListingView::<T::V> { items: Seq::empty(), cursor: CursorView::First }),
    {
        let r = Listing { items: Vec::new(), cursor: Cursor::First };
        assert(views(r.items@) == Seq::<T::V>::empty());
        r
    }

    /// Which page to ask for next.
    pub fn cursor(&self) -> (r: &Cursor)
        ensures
            r@ == self@.cursor,
    {
        &self.cursor
    }

    /// Whether the last page was taken in.
    pub fn is_complete(&self) -> (r: bool)
        ensures
            r == (self@.cursor is Done),
    {
        match self.cursor {
            Cursor::Done => true,
            _ => false,
        }
    }

    /// Takes in a page that held `items` and carried `offset`.
    pub fn absorb(&mut self, items: Vec<T>, offset: Option<String>)
        ensures
            final(self)@ == old(self)@.absorbed(views(items@), offset.deep_view()),
    {
        if self.is_complete() {
            return ;
        }
        let mut items = items;
        assert(views(self.items@ + items@) == views(self.items@) + views(items@));
        self.items.append(&mut items);
        self.cursor =
        match offset {
            Some(next) => Cursor::After(next),
            None => Cursor::Done,
        };
    }

    /// The items of the whole list, once the last page was taken in; before
    /// that, the listing as it stands.
    pub fn into_items(self) -> (r: Result<Vec<T>, Listing<T>>)
        ensures
            match r {
                Ok(items) => self@.cursor is Done && views(items@) == self@.items,
                Err(listing) => !(self@.cursor is Done) && listing == self,
            },
    {
        if self.is_complete() {
            Ok(self.items)
        } else {
            Err(self)
        }
    }
}

/// Takes a fetched page of book records into `listing`, and returns the
/// records of that page that were left out. A listing that is done reads
/// nothing of the page.
pub fn accept_books(listing: &mut Listing<Book>, page: &AirtableResponse) -> (skipped: Vec<
    Skipped,
>)
    ensures
        final(listing)@ == old(listing)@.absorbed(kept(book_outcomes(page@.records)), page@.offset),
        skipped@ == if old(listing)@.cursor is Done {
            Seq::empty()
        } else {
            left_out(book_outcomes(page@.records))
        },
{
    if listing.is_complete() {
        return Vec::new();
    }
    let parsed = parse_books(&page.records);
    listing.absorb(parsed.items, page.offset.clone());
    parsed.skipped
}

/// Takes a fetched page of user records into `listing`, and returns the
/// records of that page that were left out. A listing that is done reads
/// nothing of the page.
pub fn accept_users(listing: &mut Listing<ArchiveUser>, page: &AirtableResponse) -> (skipped: Vec<
    Skipped,
>)
    ensures
        final(listing)@ == old(listing)@.absorbed(kept(user_outcomes(page@.records)), page@.offset),
        skipped@ == if old(listing)@.cursor is Done {
            Seq::empty()
        } else {
            left_out(user_outcomes(page@.records))
        },
{
    if listing.is_complete() {
        return Vec::new();
    }
    let parsed = parse_users(&page.records);
    listing.absorb(parsed.items, page.offset.clone());
    parsed.skipped
}

} // verus!
