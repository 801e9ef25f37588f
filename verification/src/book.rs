//! The records the cache holds: books and the people who borrow them.

use vstd::prelude::*;

verus! {

/// What a [`Book`] stands for: its texts as character sequences, its counts as
/// natural numbers.
pub struct BookView {
    pub id: Seq<char>,
    pub name: Seq<char>,
    pub authors: Seq<char>,
    pub number_available: nat,
    pub number_in_stock: nat,
}

impl BookView {
    /// No more copies are available than are in stock.
    pub open spec fn counts_in_range(self) -> bool {
        self.number_available <= self.number_in_stock
    }

    /// The same book with `count` copies available.
    pub open spec fn with_available(self, count: nat) -> BookView {
        BookView { number_available: count, ..self }
    }
}

/// One inventory item. The identifier is assigned by the remote store and
/// never changes; the authors may be empty. Every `Book` has
/// `number_available <= number_in_stock`.
#[derive(Debug, PartialEq, Eq)]
pub struct Book {
    id: String,
    name: String,
    authors: String,
    number_available: u64,
    number_in_stock: u64,
}

impl View for Book {
    type V = BookView;

    closed spec fn view(&self) -> BookView {
        BookView {
            id: self.id@,
            name: self.name@,
            authors: self.authors@,
            number_available: self.number_available as nat,
            number_in_stock: self.number_in_stock as nat,
        }
    }
}

impl Book {
    #[verifier::type_invariant]
    spec fn counts_in_range(self) -> bool {
        self.number_available <= self.number_in_stock
    }

    /// Makes a book, unless more copies would be available than in stock.
    pub fn new(
        id: String,
        name: String,
        authors: String,
        number_available: u64,
        number_in_stock: u64,
    ) -> (r: Option<Book>)
        ensures
            r is Some <==> number_available <= number_in_stock,
            r matches Some(book) ==> book@ == (BookView {
                id: id@,
                name: name@,
                authors: authors@,
                number_available: number_available as nat,
                number_in_stock: number_in_stock as nat,
            }),
    {
        if number_available <= number_in_stock {
            Some(Book { id, name, authors, number_available, number_in_stock })
        } else {
            None
        }
    }

    /// The identifier that the remote store gave the book.
    pub fn id(&self) -> (r: &String)
        ensures
            r@ == self@.id,
    {
        &self.id
    }

    /// The title.
    pub fn name(&self) -> (r: &String)
        ensures
            r@ == self@.name,
    {
        &self.name
    }

    /// The authors, as one text; empty where none are known.
    pub fn authors(&self) -> (r: &String)
        ensures
            r@ == self@.authors,
    {
        &self.authors
    }

    /// The number of copies on the shelf, never more than are in stock.
    pub fn number_available(&self) -> (r: u64)
        ensures
            r == self@.number_available,
            self@.counts_in_range(),
    {
        proof {
            use_type_invariant(self);
        }
        self.number_available
    }

    /// The number of copies the library owns.
    pub fn number_in_stock(&self) -> (r: u64)
        ensures
            r == self@.number_in_stock,
            self@.counts_in_range(),
    {
        proof {
            use_type_invariant(self);
        }
        self.number_in_stock
    }

    /// The same book with `count` copies available, unless that is more than
    /// are in stock.
    pub fn with_available(&self, count: u64) -> (r: Option<Book>)
        ensures
            r is Some <==> count <= self@.number_in_stock,
            r matches Some(book) ==> book@ == self@.with_available(count as nat),
    {
        if count <= self.number_in_stock {
            Some(
                Book {
                    id: self.id.clone(),
                    name: self.name.clone(),
                    authors: self.authors.clone(),
                    number_available: count,
                    number_in_stock: self.number_in_stock,
                },
            )
        } else {
            None
        }
    }
}

impl Clone for Book {
    fn clone(&self) -> (r: Self)
        ensures
            r@ == self@,
            r@.counts_in_range(),
    {
        proof {
            use_type_invariant(self);
        }
        Book {
            id: self.id.clone(),
            name: self.name.clone(),
            authors: self.authors.clone(),
            number_available: self.number_available,
            number_in_stock: self.number_in_stock,
        }
    }
}

/// What an [`ArchiveUser`] stands for.
pub struct UserView {
    pub id: Seq<char>,
    pub name: Seq<char>,
}

/// A person who may borrow books. Users are read from the remote store and
/// never changed here.
#[derive(Debug, PartialEq, Eq)]
pub struct ArchiveUser {
    id: String,
    name: String,
}

impl View for ArchiveUser {
    type V = UserView;

    closed spec fn view(&self) -> UserView {
        UserView { id: self.id@, name: self.name@ }
    }
}

impl ArchiveUser {
    /// The user with identifier `id` who goes by `name`.
    pub fn new(id: String, name: String) -> (r: ArchiveUser)
        ensures
            r@ == (UserView { id: id@, name: name@ }),
    {
        ArchiveUser { id, name }
    }

    /// The identifier that the remote store gave the user.
    pub fn id(&self) -> (r: &String)
        ensures
            r@ == self@.id,
    {
        &self.id
    }

    /// The name to show; empty where none is known.
    pub fn name(&self) -> (r: &String)
        ensures
            r@ == self@.name,
    {
        &self.name
    }
}

impl Clone for ArchiveUser {
    fn clone(&self) -> (r: Self)
        ensures
            r@ == self@,
    {
        ArchiveUser { id: self.id.clone(), name: self.name.clone() }
    }
}

} // verus!
