use book_cache::book::{ArchiveUser, Book};
use book_cache::error::{Field, ParseError};
use book_cache::records::{
    book_from_slots, parse_book, parse_books, parse_user, parse_users, user_from_slots,
    AirtableResponse, Skipped, Slot,
};
use serde_json::Value;

fn json(text: &str) -> Value {
    serde_json::from_str(text).unwrap()
}

fn present(text: &str) -> Slot<String> {
    Slot::Present(text.to_string())
}

#[test]
fn a_book_needs_no_more_copies_available_than_in_stock() {
    let book = Book::new("rec1".to_string(), "Dune".to_string(), "Herbert".to_string(), 2, 5)
        .unwrap();
    assert_eq!(book.id(), "rec1");
    assert_eq!(book.name(), "Dune");
    assert_eq!(book.authors(), "Herbert");
    assert_eq!(book.number_available(), 2);
    assert_eq!(book.number_in_stock(), 5);
    assert!(Book::new("rec1".to_string(), "Dune".to_string(), String::new(), 5, 5).is_some());
    assert!(Book::new("rec1".to_string(), "Dune".to_string(), String::new(), 6, 5).is_none());
    assert!(Book::new("rec1".to_string(), "Dune".to_string(), String::new(), 0, 0).is_some());
}

#[test]
fn a_book_takes_a_new_count_within_its_stock_only() {
    let book = Book::new("rec1".to_string(), "Dune".to_string(), "Herbert".to_string(), 2, 5)
        .unwrap();
    let changed = book.with_available(5).unwrap();
    assert_eq!(changed.number_available(), 5);
    assert_eq!(changed.number_in_stock(), 5);
    assert_eq!(changed.id(), "rec1");
    assert_eq!(changed.name(), "Dune");
    assert_eq!(changed.authors(), "Herbert");
    assert_eq!(book.number_available(), 2);
    assert!(book.with_available(6).is_none());
    assert_eq!(book.clone(), book);
}

#[test]
fn slots_with_every_field_give_the_book() {
    let book = book_from_slots(
        present("rec1"),
        present("Dune"),
        present("Frank Herbert"),
        Slot::Present(2),
        Slot::Present(5),
    );
    assert_eq!(
        book,
        Ok(Book::new(
            "rec1".to_string(),
            "Dune".to_string(),
            "Frank Herbert".to_string(),
            2,
            5
        )
        .unwrap())
    );
}

#[test]
fn missing_or_mistyped_authors_are_empty() {
    let absent =
        book_from_slots(present("r"), present("T"), Slot::Absent, Slot::Present(0), Slot::Present(1))
            .unwrap();
    assert_eq!(absent.authors(), "");
    let mistyped = book_from_slots(
        present("r"),
        present("T"),
        Slot::Mistyped,
        Slot::Present(0),
        Slot::Present(1),
    )
    .unwrap();
    assert_eq!(mistyped.authors(), "");
}

#[test]
fn each_mandatory_book_field_has_its_own_errors() {
    let ok_text = || present("x");
    assert_eq!(
        book_from_slots(Slot::Absent, ok_text(), ok_text(), Slot::Present(1), Slot::Present(1)),
        Err(ParseError::Missing(Field::Id))
    );
    assert_eq!(
        book_from_slots(Slot::Mistyped, ok_text(), ok_text(), Slot::Present(1), Slot::Present(1)),
        Err(ParseError::WrongType(Field::Id))
    );
    assert_eq!(
        book_from_slots(ok_text(), Slot::Absent, ok_text(), Slot::Present(1), Slot::Present(1)),
        Err(ParseError::Missing(Field::Title))
    );
    assert_eq!(
        book_from_slots(ok_text(), Slot::Mistyped, ok_text(), Slot::Present(1), Slot::Present(1)),
        Err(ParseError::WrongType(Field::Title))
    );
    assert_eq!(
        book_from_slots(ok_text(), ok_text(), ok_text(), Slot::Absent, Slot::Present(1)),
        Err(ParseError::Missing(Field::CopiesAvailable))
    );
    assert_eq!(
        book_from_slots(ok_text(), ok_text(), ok_text(), Slot::Mistyped, Slot::Present(1)),
        Err(ParseError::WrongType(Field::CopiesAvailable))
    );
    assert_eq!(
        book_from_slots(ok_text(), ok_text(), ok_text(), Slot::Present(1), Slot::Absent),
        Err(ParseError::Missing(Field::CopiesInStock))
    );
    assert_eq!(
        book_from_slots(ok_text(), ok_text(), ok_text(), Slot::Present(1), Slot::Mistyped),
        Err(ParseError::WrongType(Field::CopiesInStock))
    );
}

#[test]
fn the_first_bad_field_decides_the_error() {
    assert_eq!(
        book_from_slots(Slot::Absent, Slot::Mistyped, Slot::Absent, Slot::Absent, Slot::Absent),
        Err(ParseError::Missing(Field::Id))
    );
    assert_eq!(
        book_from_slots(present("r"), Slot::Mistyped, Slot::Absent, Slot::Absent, Slot::Absent),
        Err(ParseError::WrongType(Field::Title))
    );
    assert_eq!(
        book_from_slots(present("r"), present("t"), Slot::Absent, Slot::Present(9), Slot::Absent),
        Err(ParseError::Missing(Field::CopiesInStock))
    );
}

#[test]
fn more_copies_available_than_in_stock_is_an_error() {
    assert_eq!(
        book_from_slots(present("r"), present("t"), Slot::Absent, Slot::Present(6), Slot::Present(5)),
        Err(ParseError::AvailableExceedsStock)
    );
}

#[test]
fn a_user_needs_an_identifier_and_may_lack_a_name() {
    let user = user_from_slots(present("usr1"), present("Ada")).unwrap();
    assert_eq!(user.id(), "usr1");
    assert_eq!(user.name(), "Ada");
    assert_eq!(user_from_slots(present("usr1"), Slot::Absent).unwrap().name(), "");
    assert_eq!(user_from_slots(present("usr1"), Slot::Mistyped).unwrap().name(), "");
    assert_eq!(user_from_slots(Slot::Absent, present("Ada")), Err(ParseError::Missing(Field::Id)));
    assert_eq!(
        user_from_slots(Slot::Mistyped, present("Ada")),
        Err(ParseError::WrongType(Field::Id))
    );
    assert_eq!(user, ArchiveUser::new("usr1".to_string(), "Ada".to_string()));
    assert_eq!(user.clone(), user);
}

#[test]
fn a_full_record_is_read_as_a_book() {
    let record = json(
        r#"{"id": "recA", "createdTime": "2024-01-01T00:00:00.000Z",
            "fields": {"Title": "Dune", "Authors": "Frank Herbert",
                       "Copies available": 3, "Copies in stock": 5}}"#,
    );
    let book = parse_book(&record).unwrap();
    assert_eq!(book.id(), "recA");
    assert_eq!(book.name(), "Dune");
    assert_eq!(book.authors(), "Frank Herbert");
    assert_eq!(book.number_available(), 3);
    assert_eq!(book.number_in_stock(), 5);
}

#[test]
fn a_record_without_authors_has_empty_authors() {
    let record = json(
        r#"{"id": "recA", "fields": {"Title": "Dune", "Copies available": 0, "Copies in stock": 0}}"#,
    );
    let book = parse_book(&record).unwrap();
    assert_eq!(book.authors(), "");
    assert_eq!(book.number_available(), 0);
    let odd = json(
        r#"{"id": "recA", "fields": {"Title": "Dune", "Authors": ["a", "b"],
            "Copies available": 1, "Copies in stock": 1}}"#,
    );
    assert_eq!(parse_book(&odd).unwrap().authors(), "");
}

#[test]
fn a_record_without_its_count_is_not_a_book() {
    let record = json(r#"{"id": "recA", "fields": {"Title": "Dune", "Copies in stock": 5}}"#);
    assert_eq!(parse_book(&record), Err(ParseError::Missing(Field::CopiesAvailable)));
    let record = json(r#"{"id": "recA", "fields": {"Title": "Dune", "Copies available": 5}}"#);
    assert_eq!(parse_book(&record), Err(ParseError::Missing(Field::CopiesInStock)));
}

#[test]
fn counts_must_be_whole_and_not_negative() {
    let text = json(
        r#"{"id": "recA", "fields": {"Title": "Dune", "Copies available": "3", "Copies in stock": 5}}"#,
    );
    assert_eq!(parse_book(&text), Err(ParseError::WrongType(Field::CopiesAvailable)));
    let negative = json(
        r#"{"id": "recA", "fields": {"Title": "Dune", "Copies available": -1, "Copies in stock": 5}}"#,
    );
    assert_eq!(parse_book(&negative), Err(ParseError::WrongType(Field::CopiesAvailable)));
    let fraction = json(
        r#"{"id": "recA", "fields": {"Title": "Dune", "Copies available": 1, "Copies in stock": 2.5}}"#,
    );
    assert_eq!(parse_book(&fraction), Err(ParseError::WrongType(Field::CopiesInStock)));
    let null = json(
        r#"{"id": "recA", "fields": {"Title": "Dune", "Copies available": null, "Copies in stock": 2}}"#,
    );
    assert_eq!(parse_book(&null), Err(ParseError::WrongType(Field::CopiesAvailable)));
    let large = json(
        r#"{"id": "recA", "fields": {"Title": "Dune", "Copies available": 18446744073709551615,
            "Copies in stock": 18446744073709551615}}"#,
    );
    assert_eq!(parse_book(&large).unwrap().number_in_stock(), u64::MAX);
}

#[test]
fn identifier_and_title_must_be_texts() {
    let no_id = json(
        r#"{"fields": {"Title": "Dune", "Copies available": 1, "Copies in stock": 5}}"#,
    );
    assert_eq!(parse_book(&no_id), Err(ParseError::Missing(Field::Id)));
    let odd_id = json(
        r#"{"id": 7, "fields": {"Title": "Dune", "Copies available": 1, "Copies in stock": 5}}"#,
    );
    assert_eq!(parse_book(&odd_id), Err(ParseError::WrongType(Field::Id)));
    let no_title = json(r#"{"id": "r", "fields": {"Copies available": 1, "Copies in stock": 5}}"#);
    assert_eq!(parse_book(&no_title), Err(ParseError::Missing(Field::Title)));
    let odd_title = json(
        r#"{"id": "r", "fields": {"Title": false, "Copies available": 1, "Copies in stock": 5}}"#,
    );
    assert_eq!(parse_book(&odd_title), Err(ParseError::WrongType(Field::Title)));
}

#[test]
fn a_record_without_fields_lacks_its_title() {
    assert_eq!(parse_book(&json(r#"{"id": "r"}"#)), Err(ParseError::Missing(Field::Title)));
    assert_eq!(
        parse_book(&json(r#"{"id": "r", "fields": [1, 2]}"#)),
        Err(ParseError::Missing(Field::Title))
    );
    assert_eq!(parse_book(&json("[]")), Err(ParseError::Missing(Field::Id)));
    assert_eq!(parse_book(&json("null")), Err(ParseError::Missing(Field::Id)));
    assert_eq!(parse_book(&json(r#""id""#)), Err(ParseError::Missing(Field::Id)));
}

#[test]
fn a_record_that_claims_more_copies_than_stock_is_left_out() {
    let record = json(
        r#"{"id": "r", "fields": {"Title": "Dune", "Copies available": 6, "Copies in stock": 5}}"#,
    );
    assert_eq!(parse_book(&record), Err(ParseError::AvailableExceedsStock));
}

#[test]
fn a_record_is_read_as_a_user() {
    let record = json(r#"{"id": "usr1", "fields": {"Name": "Ada Lovelace"}}"#);
    let user = parse_user(&record).unwrap();
    assert_eq!(user.id(), "usr1");
    assert_eq!(user.name(), "Ada Lovelace");
    assert_eq!(parse_user(&json(r#"{"id": "usr2", "fields": {}}"#)).unwrap().name(), "");
    assert_eq!(parse_user(&json(r#"{"id": "usr2"}"#)).unwrap().name(), "");
    assert_eq!(
        parse_user(&json(r#"{"fields": {"Name": "Ada"}}"#)),
        Err(ParseError::Missing(Field::Id))
    );
    assert_eq!(
        parse_user(&json(r#"{"id": null, "fields": {"Name": "Ada"}}"#)),
        Err(ParseError::WrongType(Field::Id))
    );
}

#[test]
fn one_bad_record_does_not_stop_the_page() {
    let records = vec![
        json(r#"{"id": "r1", "fields": {"Title": "A", "Copies available": 1, "Copies in stock": 2}}"#),
        json(r#"{"id": "r2", "fields": {"Title": "B", "Copies in stock": 2}}"#),
        json(r#"{"id": "r3", "fields": {"Title": "C", "Copies available": 0, "Copies in stock": 4}}"#),
    ];
    let parsed = parse_books(&records);
    assert_eq!(parsed.items.len(), 2);
    assert_eq!(parsed.items[0].id(), "r1");
    assert_eq!(parsed.items[1].id(), "r3");
    assert_eq!(parsed.items[1].number_in_stock(), 4);
    assert_eq!(
        parsed.skipped,
        vec![Skipped { index: 1, error: ParseError::Missing(Field::CopiesAvailable) }]
    );
}

#[test]
fn every_bad_record_is_reported_with_its_place() {
    let records = vec![
        json(r#"{"fields": {"Title": "A", "Copies available": 1, "Copies in stock": 2}}"#),
        json(r#"{"id": "r2", "fields": {"Title": "B", "Copies available": 1, "Copies in stock": 2}}"#),
        json(r#"{"id": "r3", "fields": {"Title": 3, "Copies available": 0, "Copies in stock": 4}}"#),
        json(r#"{"id": "r4", "fields": {"Title": "D", "Copies available": 9, "Copies in stock": 4}}"#),
    ];
    let parsed = parse_books(&records);
    assert_eq!(parsed.items.len(), 1);
    assert_eq!(parsed.items[0].id(), "r2");
    assert_eq!(
        parsed.skipped,
        vec![
            Skipped { index: 0, error: ParseError::Missing(Field::Id) },
            Skipped { index: 2, error: ParseError::WrongType(Field::Title) },
            Skipped { index: 3, error: ParseError::AvailableExceedsStock },
        ]
    );
    let none = parse_books(&Vec::new());
    assert!(none.items.is_empty());
    assert!(none.skipped.is_empty());
}

#[test]
fn users_are_read_page_wise_too() {
    let records = vec![
        json(r#"{"id": "u1", "fields": {"Name": "Ada"}}"#),
        json(r#"{"fields": {"Name": "Nobody"}}"#),
        json(r#"{"id": "u3", "fields": {}}"#),
    ];
    let parsed = parse_users(&records);
    assert_eq!(parsed.items.len(), 2);
    assert_eq!(parsed.items[0].name(), "Ada");
    assert_eq!(parsed.items[1].id(), "u3");
    assert_eq!(parsed.items[1].name(), "");
    assert_eq!(parsed.skipped, vec![Skipped { index: 1, error: ParseError::Missing(Field::Id) }]);
}

#[test]
fn a_document_with_records_and_a_cursor_is_a_page() {
    let page = AirtableResponse::from_value(&json(
        r#"{"records": [{"id": "r1"}, {"id": "r2"}], "offset": "itr123/rec456"}"#,
    ))
    .unwrap();
    assert_eq!(page.records.len(), 2);
    assert_eq!(page.records[0], json(r#"{"id": "r1"}"#));
    assert_eq!(page.records[1], json(r#"{"id": "r2"}"#));
    assert_eq!(page.offset, Some("itr123/rec456".to_string()));
}

#[test]
fn the_last_page_has_no_cursor() {
    let page = AirtableResponse::from_value(&json(r#"{"records": []}"#)).unwrap();
    assert!(page.records.is_empty());
    assert_eq!(page.offset, None);
    let with_null =
        AirtableResponse::from_value(&json(r#"{"records": [1], "offset": null}"#)).unwrap();
    assert_eq!(with_null.records.len(), 1);
    assert_eq!(with_null.offset, None);
}

#[test]
fn a_document_that_is_no_page_is_told_apart() {
    assert_eq!(
        AirtableResponse::from_value(&json(r#"{"offset": "x"}"#)).err(),
        Some(ParseError::Missing(Field::Records))
    );
    assert_eq!(
        AirtableResponse::from_value(&json(r#"{"records": {"id": "r1"}}"#)).err(),
        Some(ParseError::WrongType(Field::Records))
    );
    assert_eq!(
        AirtableResponse::from_value(&json(r#"{"records": [], "offset": 12}"#)).err(),
        Some(ParseError::WrongType(Field::Offset))
    );
    assert_eq!(
        AirtableResponse::from_value(&json(r#"[{"id": "r1"}]"#)).err(),
        Some(ParseError::Missing(Field::Records))
    );
    assert_eq!(
        AirtableResponse::from_value(&json(r#"{"error": "NOT_FOUND"}"#)).err(),
        Some(ParseError::Missing(Field::Records))
    );
}

#[test]
fn the_body_of_an_answer_is_read_as_a_page() {
    let page = AirtableResponse::from_text(
        r#"{"records": [{"id": "r1", "fields": {"Title": "A", "Copies available": 1,
            "Copies in stock": 2}}], "offset": "next"}"#,
    )
    .unwrap();
    assert_eq!(page.offset, Some("next".to_string()));
    assert_eq!(page.records.len(), 1);
    let book = parse_book(&page.records[0]).unwrap();
    assert_eq!(book.id(), "r1");
    assert_eq!(book.name(), "A");
    assert_eq!(book.number_in_stock(), 2);
}

#[test]
fn a_body_that_is_no_json_is_told_apart_from_one_that_is_no_page() {
    assert_eq!(AirtableResponse::from_text("<html>oops</html>").err(), Some(ParseError::NotJson));
    assert_eq!(AirtableResponse::from_text("").err(), Some(ParseError::NotJson));
    assert_eq!(
        AirtableResponse::from_text(r#"{"records": []} trailing"#).err(),
        Some(ParseError::NotJson)
    );
    assert_eq!(
        AirtableResponse::from_text("{}").err(),
        Some(ParseError::Missing(Field::Records))
    );
    assert_eq!(
        AirtableResponse::from_text("\"records\"").err(),
        Some(ParseError::Missing(Field::Records))
    );
    assert!(AirtableResponse::from_text(" {\"records\" : [ ] } ").is_ok());
}
