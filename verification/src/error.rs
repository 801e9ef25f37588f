//! The kinds of failure the cache reports.

use vstd::prelude::*;

verus! {

/// A field that a fetched page, or one of its records, must hold in a given
/// form.
#[derive(Clone, Copy, Debug, PartialEq, Eq, Structural)]
pub enum Field {
    /// The records of a page.
    Records,
    /// The cursor of the page that follows.
    Offset,
    /// The identifier of a record.
    Id,
    /// The title of a book.
    Title,
    /// The number of copies on the shelf.
    CopiesAvailable,
    /// The number of copies the library owns.
    CopiesInStock,
}

/// Why a fetched page, or one of its records, could not be read.
#[derive(Clone, Copy, Debug, PartialEq, Eq, Structural)]
pub enum ParseError {
    /// The fetched text is no JSON document.
    NotJson,
    /// A mandatory field is absent.
    Missing(Field),
    /// A mandatory field holds a value of the wrong type.
    WrongType(Field),
    /// The record claims more available copies than copies in stock.
    AvailableExceedsStock,
}

/// Why a remote call did not go through.
#[derive(Clone, Copy, Debug, PartialEq, Eq, Structural)]
pub enum NetworkError {
    /// The remote store could not be reached.
    Unreachable,
    /// The call ran past its time limit.
    Timeout,
    /// The remote store answered with a status other than success.
    Status(u16),
}

/// Why a full refresh did not complete.
#[derive(Clone, Copy, Debug, PartialEq, Eq, Structural)]
pub enum RefreshError {
    Network(NetworkError),
    Parse(ParseError),
}

/// Why a lookup, a checkout or a return was turned down.
#[derive(Clone, Copy, Debug, PartialEq, Eq, Structural)]
pub enum CacheError {
    /// No book with that identifier is cached.
    NotFound,
    /// The change would leave the available count outside `0..=in_stock`.
    Conflict,
    /// A remote write failed; the cache was left as it was.
    Network(NetworkError),
    /// No refresh has ever succeeded and the last attempt failed.
    Refresh(RefreshError),
}

} // verus!
