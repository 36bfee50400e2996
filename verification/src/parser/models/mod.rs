pub mod content;
pub mod course;
