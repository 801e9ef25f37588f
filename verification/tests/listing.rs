use book_cache::book::{ArchiveUser, Book};
use book_cache::error::{Field, ParseError};
use book_cache::listing::{accept_books, accept_users, Cursor, Listing};
use book_cache::records::{AirtableResponse, Skipped};
use serde_json::Value;

fn document(text: &str) -> AirtableResponse {
    let value: Value = serde_json::from_str(text).unwrap();
    AirtableResponse::from_value(&value).unwrap()
}

fn title(n: u64) -> Book {
    Book::new(format!("rec{n}"), format!("Title {n}"), String::new(), n, n + 1).unwrap()
}

#[test]
fn a_new_listing_asks_for_the_first_page() {
    let listing: Listing<Book> = Listing::new();
    assert_eq!(listing.cursor(), &Cursor::First);
    assert!(!listing.is_complete());
    assert!(listing.into_items().is_err());
}

#[test]
fn a_page_with_a_cursor_asks_for_the_page_after_it() {
    let mut listing = Listing::new();
    listing.absorb(vec![title(1), title(2)], Some("cursor-a".to_string()));
    assert_eq!(listing.cursor(), &Cursor::After("cursor-a".to_string()));
    assert!(!listing.is_complete());
    listing.absorb(vec![title(3)], Some("cursor-b".to_string()));
    assert_eq!(listing.cursor(), &Cursor::After("cursor-b".to_string()));
    listing.absorb(vec![], None);
    assert_eq!(listing.cursor(), &Cursor::Done);
    assert!(listing.is_complete());
    let items = listing.into_items().ok().unwrap();
    assert_eq!(items, vec![title(1), title(2), title(3)]);
}

#[test]
fn a_single_page_without_a_cursor_is_the_whole_list() {
    let mut listing = Listing::new();
    listing.absorb(vec![title(7)], None);
    assert!(listing.is_complete());
    assert_eq!(listing.into_items().ok().unwrap(), vec![title(7)]);
}

#[test]
fn a_listing_that_is_done_takes_nothing_more_in() {
    let mut listing = Listing::new();
    listing.absorb(vec![title(1)], None);
    listing.absorb(vec![title(2)], Some("late".to_string()));
    assert_eq!(listing.cursor(), &Cursor::Done);
    assert_eq!(listing.into_items().ok().unwrap(), vec![title(1)]);
}

#[test]
fn an_unfinished_listing_comes_back_as_it_stands() {
    let mut listing = Listing::new();
    listing.absorb(vec![title(1)], Some("more".to_string()));
    let mut back = listing.into_items().err().unwrap();
    assert_eq!(back.cursor(), &Cursor::After("more".to_string()));
    back.absorb(vec![title(2)], None);
    assert_eq!(back.into_items().ok().unwrap(), vec![title(1), title(2)]);
}

#[test]
fn pages_of_book_records_are_gathered_in_order() {
    let mut listing = Listing::new();
    let first = document(
        r#"{"records": [
            {"id": "r1", "fields": {"Title": "A", "Copies available": 1, "Copies in stock": 2}},
            {"id": "r2", "fields": {"Title": "B", "Copies available": 0, "Copies in stock": 1}}],
            "offset": "page2"}"#,
    );
    let skipped = accept_books(&mut listing, &first);
    assert!(skipped.is_empty());
    assert_eq!(listing.cursor(), &Cursor::After("page2".to_string()));
    let second = document(
        r#"{"records": [
            {"id": "r3", "fields": {"Title": "C", "Copies available": 3, "Copies in stock": 3}}]}"#,
    );
    let skipped = accept_books(&mut listing, &second);
    assert!(skipped.is_empty());
    assert!(listing.is_complete());
    let books = listing.into_items().ok().unwrap();
    assert_eq!(books.len(), 3);
    assert_eq!(books[0].id(), "r1");
    assert_eq!(books[1].id(), "r2");
    assert_eq!(books[2].id(), "r3");
    assert_eq!(books[2].number_available(), 3);
}

#[test]
fn a_record_without_copies_available_is_left_out_of_the_listing() {
    let mut listing = Listing::new();
    let page = document(
        r#"{"records": [
            {"id": "r1", "fields": {"Title": "A", "Copies available": 1, "Copies in stock": 2}},
            {"id": "r2", "fields": {"Title": "B", "Copies in stock": 1}},
            {"id": "r3", "fields": {"Title": "C", "Copies available": 3, "Copies in stock": 3}}]}"#,
    );
    let skipped = accept_books(&mut listing, &page);
    assert_eq!(
        skipped,
        vec![Skipped { index: 1, error: ParseError::Missing(Field::CopiesAvailable) }]
    );
    assert!(listing.is_complete());
    let books = listing.into_items().ok().unwrap();
    assert_eq!(books.len(), 2);
    assert_eq!(books[0].id(), "r1");
    assert_eq!(books[1].id(), "r3");
}

#[test]
fn a_done_listing_reads_nothing_of_a_late_page() {
    let mut listing = Listing::new();
    accept_books(&mut listing, &document(r#"{"records": []}"#));
    let late = document(r#"{"records": [{"id": "r9"}], "offset": "x"}"#);
    let skipped = accept_books(&mut listing, &late);
    assert!(skipped.is_empty());
    assert!(listing.is_complete());
    assert!(listing.into_items().ok().unwrap().is_empty());
}

#[test]
fn pages_of_user_records_are_gathered_too() {
    let mut listing: Listing<ArchiveUser> = Listing::new();
    let first = document(
        r#"{"records": [{"id": "u1", "fields": {"Name": "Ada"}}, {"fields": {}}], "offset": "n"}"#,
    );
    let skipped = accept_users(&mut listing, &first);
    assert_eq!(skipped, vec![Skipped { index: 1, error: ParseError::Missing(Field::Id) }]);
    assert_eq!(listing.cursor(), &Cursor::After("n".to_string()));
    let second = document(r#"{"records": [{"id": "u2", "fields": {"Name": "Grace"}}]}"#);
    assert!(accept_users(&mut listing, &second).is_empty());
    let users = listing.into_items().ok().unwrap();
    assert_eq!(users.len(), 2);
    assert_eq!(users[0].name(), "Ada");
    assert_eq!(users[1].id(), "u2");
    let mut done: Listing<ArchiveUser> = Listing::new();
    accept_users(&mut done, &document(r#"{"records": []}"#));
    assert!(accept_users(&mut done, &first).is_empty());
    assert!(done.into_items().ok().unwrap().is_empty());
}
