//! Backend-agnostic store error. Mapped to an RPC error at the service
//! boundary so callers see proper codes.

use vstd::prelude::*;

use crate::text::join2;

verus! {

/// Why a storage operation failed.
#[derive(Debug, PartialEq, Eq)]
pub enum StoreError {
    NotFound(String),
    AlreadyExists(String),
    /// Domain rule violated (e.g. removing the last admin, deleting a
    /// non-empty org).
    Conflict(String),
    /// Underlying storage failure: the database errored, a row did not parse.
    Backend(String),
}

/// [`StoreError`] over characters.
pub enum StoreErrorView {
    NotFound(Seq<char>),
    AlreadyExists(Seq<char>),
    Conflict(Seq<char>),
    Backend(Seq<char>),
}

impl View for StoreError {
    type V = StoreErrorView;

    open spec fn view(&self) -> StoreErrorView {
        match self {
            StoreError::NotFound(s) => StoreErrorView::NotFound(s@),
            StoreError::AlreadyExists(s) => StoreErrorView::AlreadyExists(s@),
            StoreError::Conflict(s) => StoreErrorView::Conflict(s@),
            StoreError::Backend(s) => StoreErrorView::Backend(s@),
        }
    }
}

impl StoreErrorView {
    /// The message of the error.
    pub open spec fn text(self) -> Seq<char> {
        match self {
            StoreErrorView::NotFound(s) => "not found: "@ + s,
            StoreErrorView::AlreadyExists(s) => "already exists: "@ + s,
            StoreErrorView::Conflict(s) => "conflict: "@ + s,
            StoreErrorView::Backend(s) => "backend: "@ + s,
        }
    }
}

impl StoreError {
    pub fn not_found(s: &str) -> (r: Self)
        ensures
            r@ == StoreErrorView::NotFound(s@),
    {
        StoreError::NotFound(s.to_owned())
    }

    pub fn already_exists(s: &str) -> (r: Self)
        ensures
            r@ == StoreErrorView::AlreadyExists(s@),
    {
        StoreError::AlreadyExists(s.to_owned())
    }

    pub fn conflict(s: &str) -> (r: Self)
        ensures
            r@ == StoreErrorView::Conflict(s@),
    {
        StoreError::Conflict(s.to_owned())
    }

    pub fn backend(s: &str) -> (r: Self)
        ensures
            r@ == StoreErrorView::Backend(s@),
    {
        StoreError::Backend(s.to_owned())
    }

    /// The message of the error.
    pub fn to_string(&self) -> (r: String)
        ensures
            r@ == self@.text(),
    {
        match self {
            StoreError::NotFound(s) => join2("not found: ", s.as_str()),
            StoreError::AlreadyExists(s) => join2("already exists: ", s.as_str()),
            StoreError::Conflict(s) => join2("conflict: ", s.as_str()),
            StoreError::Backend(s) => join2("backend: ", s.as_str()),
        }
    }
}

/// The result of a storage operation.
pub type StoreResult<T> = Result<T, StoreError>;

} // verus!
