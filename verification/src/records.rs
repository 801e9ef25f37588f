//! Turning fetched records into books and users.
//!
//! A page of the remote store is a JSON object `{ "records": [..], "offset": .. }`
//! whose `offset`, the cursor of the page that follows, is left out on the
//! last page. A record is a JSON object
//! `{ "id": .., "fields": { "Title": .., "Authors": .., "Copies available": ..,
//! "Copies in stock": .. } }`; a user record holds `"Name"` in place of the
//! book fields. A record that lacks what it must hold is reported and left
//! out; it never stops the records around it from being read.

use vstd::prelude::*;
use crate::book::{ArchiveUser, Book, BookView, UserView};
use crate::error::{Field, ParseError};
use crate::json::{
    count, decode, is_null, items, json_count, json_document, json_items, json_member, json_null,
    json_text, member, text,
};
use crate::view::{result_view, views};

verus! {

/// What a record holds under one field name.
#[derive(Debug, PartialEq, Eq)]
pub enum Slot<T> {
    /// The record has no such field.
    Absent,
    /// The field holds a value of another type than the one asked for.
    Mistyped,
    /// The field holds this value.
    Present(T),
}

/// A text slot, with the text as a character sequence.
pub open spec fn text_view(slot: Slot<String>) -> Slot<Seq<char>> {
    match slot {
        Slot::Absent => Slot::Absent,
        Slot::Mistyped => Slot::Mistyped,
        Slot::Present(s) => Slot::Present(s@),
    }
}

/// The value of a mandatory field, or the error that its absence gives.
pub open spec fn required<T>(slot: Slot<T>, field: Field) -> Result<T, ParseError> {
    match slot {
        Slot::Absent => Err(ParseError::Missing(field)),
        Slot::Mistyped => Err(ParseError::WrongType(field)),
        Slot::Present(v) => Ok(v),
    }
}

/// The value of an optional text field: empty unless a text is present.
pub open spec fn text_or_empty(slot: Slot<Seq<char>>) -> Seq<char> {
    match slot {
        Slot::Present(s) => s,
        _ => Seq::empty(),
    }
}

/// The book that five field slots describe. The identifier, the title and
/// both counts are mandatory, and the first of them (in that order) that is
/// absent or mistyped decides the error; the authors default to the empty
/// text. A record with more copies available than in stock is an error too.
pub open spec fn book_of_slots(
    id: Slot<Seq<char>>,
    title: Slot<Seq<char>>,
    authors: Slot<Seq<char>>,
    copies_available: Slot<u64>,
    copies_in_stock: Slot<u64>,
) -> Result<BookView, ParseError> {
    match required(id, Field::Id) {
        Err(error) => Err(error),
        Ok(id) => match required(title, Field::Title) {
            Err(error) => Err(error),
            Ok(name) => match required(copies_available, Field::CopiesAvailable) {
                Err(error) => Err(error),
                Ok(available) => match required(copies_in_stock, Field::CopiesInStock) {
                    Err(error) => Err(error),
                    Ok(in_stock) => if available > in_stock {
                        Err(ParseError::AvailableExceedsStock)
                    } else {
                        Ok(
                            BookView {
                                id,
                                name,
                                authors: text_or_empty(authors),
                                number_available: available as nat,
                                number_in_stock: in_stock as nat,
                            },
                        )
                    },
                },
            },
        },
    }
}

/// The user that two field slots describe: the identifier is mandatory, the
/// name defaults to the empty text.
pub open spec fn user_of_slots(id: Slot<Seq<char>>, name: Slot<Seq<char>>) -> Result<
    UserView,
    ParseError,
> {
    match required(id, Field::Id) {
        Err(e) => Err(e),
        Ok(id) => Ok(UserView { id, name: text_or_empty(name) }),
    }
}

fn require<T>(slot: Slot<T>, field: Field) -> (r: Result<T, ParseError>)
    ensures
        r == required(slot, field),
{
    match slot {
        Slot::Absent => Err(ParseError::Missing(field)),
        Slot::Mistyped => Err(ParseError::WrongType(field)),
        Slot::Present(v) => Ok(v),
    }
}

fn or_empty(slot: Slot<String>) -> (r: String)
    ensures
        r@ == text_or_empty(text_view(slot)),
{
    match slot {
        Slot::Present(s) => s,
        _ => String::new(),
    }
}

/// Builds a book from what a record holds under the five book fields.
pub fn book_from_slots(
    id: Slot<String>,
    title: Slot<String>,
    authors: Slot<String>,
    copies_available: Slot<u64>,
    copies_in_stock: Slot<u64>,
) -> (r: Result<Book, ParseError>)
    ensures
        result_view(r) == book_of_slots(
            text_view(id),
            text_view(title),
            text_view(authors),
            copies_available,
            copies_in_stock,
        ),
{
    let id = require(id, Field::Id)?;
    let title = require(title, Field::Title)?;
    let available = require(copies_available, Field::CopiesAvailable)?;
    let in_stock = require(copies_in_stock, Field::CopiesInStock)?;
    match Book::new(id, title, or_empty(authors), available, in_stock) {
        Some(book) => Ok(book),
        None => Err(ParseError::AvailableExceedsStock),
    }
}

/// Builds a user from what a record holds under the two user fields.
pub fn user_from_slots(id: Slot<String>, name: Slot<String>) -> (r: Result<
    ArchiveUser,
    ParseError,
>)
    ensures
        result_view(r) == user_of_slots(text_view(id), text_view(name)),
{
    let id = require(id, Field::Id)?;
    Ok(ArchiveUser::new(id, or_empty(name)))
}

/// What `holder` holds under `key`, read as a text. Nothing is held where
/// there is no holder.
pub open spec fn text_slot(holder: Option<serde_json::Value>, key: Seq<char>) -> Slot<Seq<char>> {
    match holder {
        None => Slot::Absent,
        Some(value) => match json_member(value, key) {
            None => Slot::Absent,
            Some(found) => match json_text(found) {
                None => Slot::Mistyped,
                Some(t) => Slot::Present(t),
            },
        },
    }
}

/// What `holder` holds under `key`, read as a count.
pub open spec fn count_slot(holder: Option<serde_json::Value>, key: Seq<char>) -> Slot<u64> {
    match holder {
        None => Slot::Absent,
        Some(value) => match json_member(value, key) {
            None => Slot::Absent,
            Some(found) => match json_count(found) {
                None => Slot::Mistyped,
                Some(n) => Slot::Present(n),
            },
        },
    }
}

/// The book that a fetched record describes, or why it describes none.
pub open spec fn book_of_record(record: serde_json::Value) -> Result<BookView, ParseError> {
    let fields = json_member(record, "fields"@);
    book_of_slots(
        text_slot(Some(record), "id"@),
        text_slot(fields, "Title"@),
        text_slot(fields, "Authors"@),
        count_slot(fields, "Copies available"@),
        count_slot(fields, "Copies in stock"@),
    )
}

/// The user that a fetched record describes, or why it describes none.
pub open spec fn user_of_record(record: serde_json::Value) -> Result<UserView, ParseError> {
    let fields = json_member(record, "fields"@);
    user_of_slots(text_slot(Some(record), "id"@), text_slot(fields, "Name"@))
}

/// The value that `holder` refers to, if it refers to one.
spec fn held(holder: Option<&serde_json::Value>) -> Option<serde_json::Value> {
    match holder {
        None => None,
        Some(value) => Some(*value),
    }
}

fn read_text(holder: Option<&serde_json::Value>, key: &str) -> (r: Slot<String>)
    ensures
        text_view(r) == text_slot(held(holder), key@),
{
    match holder {
        None => Slot::Absent,
        Some(value) => match member(value, key) {
            None => Slot::Absent,
            Some(found) => match text(found) {
                None => Slot::Mistyped,
                Some(t) => Slot::Present(t),
            },
        },
    }
}

fn read_count(holder: Option<&serde_json::Value>, key: &str) -> (r: Slot<u64>)
    ensures
        r == count_slot(held(holder), key@),
{
    match holder {
        None => Slot::Absent,
        Some(value) => match member(value, key) {
            None => Slot::Absent,
            Some(found) => match count(found) {
                None => Slot::Mistyped,
                Some(n) => Slot::Present(n),
            },
        },
    }
}

/// Reads one fetched record as a book.
pub fn parse_book(record: &serde_json::Value) -> (r: Result<Book, ParseError>)
    ensures
        result_view(r) == book_of_record(*record),
{
    let fields = member(record, "fields");
    book_from_slots(
        read_text(Some(record), "id"),
        read_text(fields, "Title"),
        read_text(fields, "Authors"),
        read_count(fields, "Copies available"),
        read_count(fields, "Copies in stock"),
    )
}

/// Reads one fetched record as a user.
pub fn parse_user(record: &serde_json::Value) -> (r: Result<ArchiveUser, ParseError>)
    ensures
        result_view(r) == user_of_record(*record),
{
    let fields = member(record, "fields");
    user_from_slots(read_text(Some(record), "id"), read_text(fields, "Name"))
}

/// One page of the remote list: its records, and the cursor of the page that
/// follows. The last page carries no cursor.
pub struct AirtableResponse {
    pub records: Vec<serde_json::Value>,
    pub offset: Option<String>,
}

/// What an [`AirtableResponse`] stands for.
pub struct PageView {
    pub records: Seq<serde_json::Value>,
    pub offset: Option<Seq<char>>,
}

impl View for AirtableResponse {
    type V = PageView;

    open spec fn view(&self) -> PageView {
        PageView {
            records: self.records@,
            offset: match self.offset {
                Some(cursor) => Some(cursor@),
                None => None,
            },
        }
    }
}

/// The page that a fetched document describes, or why it describes none. The
/// records must be there, as an array. The cursor may be left out or be
/// `null`, which both mean that no page follows; where it is there, it must
/// be a text.
pub open spec fn page_of(document: serde_json::Value) -> Result<PageView, ParseError> {
    match json_member(document, "records"@) {
        None => Err(ParseError::Missing(Field::Records)),
        Some(list) => match json_items(list) {
            None => Err(ParseError::WrongType(Field::Records)),
            Some(records) => match json_member(document, "offset"@) {
                None => Ok(PageView { records, offset: None }),
                Some(cursor) => if json_null(cursor) {
                    Ok(PageView { records, offset: None })
                } else {
                    match json_text(cursor) {
                        None => Err(ParseError::WrongType(Field::Offset)),
                        Some(next) => Ok(PageView { records, offset: Some(next) }),
                    }
                },
            },
        },
    }
}

/// The page that a fetched text describes, or why it describes none.
pub open spec fn page_of_text(body: Seq<char>) -> Result<PageView, ParseError> {
    match json_document(body) {
        None => Err(ParseError::NotJson),
        Some(document) => page_of(document),
    }
}

impl AirtableResponse {
    /// Reads the body of an answer of the remote store as a page.
    pub fn from_text(body: &str) -> (r: Result<AirtableResponse, ParseError>)
        ensures
            result_view(r) == page_of_text(body@),
    {
        match decode(body) {
            Err(_) => Err(ParseError::NotJson),
            Ok(document) => AirtableResponse::from_value(&document),
        }
    }

    /// Reads a fetched document as a page.
    pub fn from_value(document: &serde_json::Value) -> (r: Result<AirtableResponse, ParseError>)
        ensures
            result_view(r) == page_of(*document),
    {
        let records = match member(document, "records") {
            None => {
                return Err(ParseError::Missing(Field::Records));
            },
            Some(list) => match items(list) {
                None => {
                    return Err(ParseError::WrongType(Field::Records));
                },
                Some(records) => records,
            },
        };
        let offset = match member(document, "offset") {
            None => None,
            Some(cursor) => if is_null(cursor) {
                None
            } else {
                match text(cursor) {
                    None => {
                        return Err(ParseError::WrongType(Field::Offset));
                    },
                    Some(next) => Some(next),
                }
            },
        };
        Ok(AirtableResponse { records, offset })
    }
}

/// A record that was left out, by its position in its page, and why.
#[derive(Clone, Copy, Debug, PartialEq, Eq, Structural)]
pub struct Skipped {
    pub index: usize,
    pub error: ParseError,
}

/// What reading a page gave: the values of the records that could be read, in
/// the order of the page, and the records that were left out.
pub struct Parsed<T> {
    pub items: Vec<T>,
    pub skipped: Vec<Skipped>,
}

/// The values among `outcomes`, in order.
pub open spec fn kept<T>(outcomes: Seq<Result<T, ParseError>>) -> Seq<T>
    decreases outcomes.len(),
{
    if outcomes.len() == 0 {
        Seq::empty()
    } else {
        let before = kept(outcomes.drop_last());
        match outcomes.last() {
            Ok(value) => before.push(value),
            Err(_) => before,
        }
    }
}

/// The errors among `outcomes`, in order, each with its position.
pub open spec fn left_out<T>(outcomes: Seq<Result<T, ParseError>>) -> Seq<Skipped>
    decreases outcomes.len(),
{
    if outcomes.len() == 0 {
        Seq::empty()
    } else {
        let before = left_out(outcomes.drop_last());
        match outcomes.last() {
            Ok(_) => before,
            Err(error) => before.push(Skipped { index: (outcomes.len() - 1) as usize, error }),
        }
    }
}

/// What each of `records` gives when read as a book.
pub open spec fn book_outcomes(records: Seq<serde_json::Value>) -> Seq<
    Result<BookView, ParseError>,
> {
    records.map_values(|record: serde_json::Value| book_of_record(record))
}

/// What each of `records` gives when read as a user.
pub open spec fn user_outcomes(records: Seq<serde_json::Value>) -> Seq<
    Result<UserView, ParseError>,
> {
    records.map_values(|record: serde_json::Value| user_of_record(record))
}

/// Reads every record of a page as a book. A record that cannot be read is
/// left out and reported; the records around it are read all the same.
pub fn parse_books(records: &Vec<serde_json::Value>) -> (r: Parsed<Book>)
    ensures
        views(r.items@) == kept(book_outcomes(records@)),
        r.skipped@ == left_out(book_outcomes(records@)),
{
    let mut items: Vec<Book> = Vec::new();
    let mut skipped: Vec<Skipped> = Vec::new();
    let ghost outcomes = book_outcomes(records@);
    for i in 0..records.len()
        invariant
            outcomes == book_outcomes(records@),
            views(items@) == kept(outcomes.take(i as int)),
            skipped@ == left_out(outcomes.take(i as int)),
    {
        assert(outcomes.take(i + 1).drop_last() == outcomes.take(i as int));
        match parse_book(&records[i]) {
            Ok(book) => {
                items.push(book);
            },
            Err(error) => {
                skipped.push(Skipped { index: i, error });
            },
        }
    }
    assert(outcomes.take(records.len() as int) == outcomes);
    Parsed { items, skipped }
}

/// Reads every record of a page as a user. A record that cannot be read is
/// left out and reported; the records around it are read all the same.
pub fn parse_users(records: &Vec<serde_json::Value>) -> (r: Parsed<ArchiveUser>)
    ensures
        views(r.items@) == kept(user_outcomes(records@)),
        r.skipped@ == left_out(user_outcomes(records@)),
{
    let mut items: Vec<ArchiveUser> = Vec::new();
    let mut skipped: Vec<Skipped> = Vec::new();
    let ghost outcomes = user_outcomes(records@);
    for i in 0..records.len()
        invariant
            outcomes == user_outcomes(records@),
            views(items@) == kept(outcomes.take(i as int)),
            skipped@ == left_out(outcomes.take(i as int)),
    {
        assert(outcomes.take(i + 1).drop_last() == outcomes.take(i as int));
        match parse_user(&records[i]) {
            Ok(user) => {
                items.push(user);
            },
            Err(error) => {
                skipped.push(Skipped { index: i, error });
            },
        }
    }
    assert(outcomes.take(records.len() as int) == outcomes);
    Parsed { items, skipped }
}

} // verus!
