//! Errors of reading course pages.
use vstd::prelude::*;
use crate::text::IntErrorKind;

verus! {

/// Why reading a page failed.
#[derive(Debug)]
pub enum Error {
    /// A regular expression did not compile; its message.
    Regex(String),
    /// A CSS selector did not parse; its message.
    Selector(String),
    /// The page could not be fetched; the client's message.
    Client(String),
    /// A number on the page is not an `i32`.
    ParseInt(IntErrorKind),
}

/// An error as plain values.
pub enum ErrorView {
    Regex(Seq<char>),
    Selector(Seq<char>),
    Client(Seq<char>),
    ParseInt(IntErrorKind),
}

impl View for Error {
    type V = ErrorView;

    open spec fn view(&self) -> ErrorView {
        match self {
            Error::Regex(m) => ErrorView::Regex(m@),
            Error::Selector(m) => ErrorView::Selector(m@),
            Error::Client(m) => ErrorView::Client(m@),
            Error::ParseInt(k) => ErrorView::ParseInt(*k),
        }
    }
}

/// A result whose error is an `Error`, as plain values.
pub open spec fn outcome<T: View>(r: Result<T, Error>) -> Result<T::V, ErrorView> {
    match r {
        Ok(v) => Ok(v@),
        Err(e) => Err(e@),
    }
}

} // verus!
