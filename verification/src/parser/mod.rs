//! Reading the course list page and course pages.
pub mod content;
pub mod course;
pub mod error;
pub mod models;

pub use error::Error as ParseError;
pub use models::content::{Content, ContentType};
pub use models::course::{Course, Courses, CoursesParser};

use vstd::prelude::*;

verus! {

/// A page reader: reads its result from the page's HTML.
pub trait Parsable<O> {
    fn parse(&self, html: &str) -> Result<O, error::Error>;
}

} // verus!
