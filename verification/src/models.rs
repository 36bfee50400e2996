//! Courses built by value: each setter takes the builder and gives it back.
use vstd::prelude::*;
use crate::parser::models::course::{CourseView, text_or_empty};

verus! {

/// A course of the student's course list.
#[derive(Debug, Clone)]
pub struct Course {
    title: String,
    season: String,
    code: String,
    is_active: bool,
    course_id: i32,
    season_id: i32,
}

impl View for Course {
    type V = CourseView;

    closed spec fn view(&self) -> CourseView {
        CourseView {
            title: self.title@,
            season: self.season@,
            code: self.code@,
            is_active: self.is_active,
            course_id: self.course_id,
            season_id: self.season_id,
        }
    }
}

/// Builds a `Course`: ids first, the other fields optionally; a field left
/// unset is empty, and a course is active unless set otherwise.
pub struct CourseBuilder {
    title: Option<String>,
    season: Option<String>,
    code: Option<String>,
    is_active: Option<bool>,
    course_id: i32,
    season_id: i32,
}

impl CourseBuilder {
    /// The course that `build` would give now.
    pub closed spec fn spec_course(&self) -> CourseView {
        CourseView {
            title: text_or_empty(self.title),
            season: text_or_empty(self.season),
            code: text_or_empty(self.code),
            is_active: match self.is_active {
                Some(b) => b,
                None => true,
            },
            course_id: self.course_id,
            season_id: self.season_id,
        }
    }

    /// A builder for the course with these ids and no other field set.
    pub fn new(course_id: i32, season_id: i32) -> (b: Self)
        ensures
            b.spec_course() == (CourseView {
                title: Seq::empty(),
                season: Seq::empty(),
                code: Seq::empty(),
                is_active: true,
                course_id,
                season_id,
            }),
    {
        CourseBuilder { course_id, season_id, title: None, season: None, code: None, is_active: None }
    }

    /// Sets the title.
    pub fn title(self, title: String) -> (b: Self)
        ensures
            b.spec_course() == (CourseView { title: title@, ..self.spec_course() }),
    {
        let mut b = self;
        b.title = Some(title);
        b
    }

    /// Sets the season.
    pub fn season(self, season: String) -> (b: Self)
        ensures
            b.spec_course() == (CourseView { season: season@, ..self.spec_course() }),
    {
        let mut b = self;
        b.season = Some(season);
        b
    }

    /// Sets the course code.
    pub fn code(self, code: String) -> (b: Self)
        ensures
            b.spec_course() == (CourseView { code: code@, ..self.spec_course() }),
    {
        let mut b = self;
        b.code = Some(code);
        b
    }

    /// Sets whether the course is active.
    pub fn is_active(self, is_active: bool) -> (b: Self)
        ensures
            b.spec_course() == (CourseView { is_active, ..self.spec_course() }),
    {
        let mut b = self;
        b.is_active = Some(is_active);
        b
    }

    /// The course built so far.
    pub fn build(self) -> (c: Course)
        ensures
            c@ == self.spec_course(),
    {
        Course {
            title: match self.title {
                Some(t) => t,
                None => String::new(),
            },
            season: match self.season {
                Some(s) => s,
                None => String::new(),
            },
            code: match self.code {
                Some(c) => c,
                None => String::new(),
            },
            is_active: match self.is_active {
                Some(b) => b,
                None => true,
            },
            course_id: self.course_id,
            season_id: self.season_id,
        }
    }
}

} // verus!
