//! Courses as the course list shows them, and their builder.
use vstd::prelude::*;

verus! {

/// A course of the student's course list.
#[derive(Debug, Clone, Hash, PartialEq, PartialOrd, Eq)]
pub struct Course {
    pub title: String,
    pub season: String,
    pub code: String,
    pub is_active: bool,
    pub course_id: i32,
    pub season_id: i32,
}

/// A course as plain values.
pub struct CourseView {
    pub title: Seq<char>,
    pub season: Seq<char>,
    pub code: Seq<char>,
    pub is_active: bool,
    pub course_id: i32,
    pub season_id: i32,
}

impl View for Course {
    type V = CourseView;

    open spec fn view(&self) -> CourseView {
        CourseView {
            title: self.title@,
            season: self.season@,
            code: self.code@,
            is_active: self.is_active,
            course_id: self.course_id,
            season_id: self.season_id,
        }
    }
}

impl Course {
    /// A copy of this course.
    pub fn duplicate(&self) -> (r: Course)
        ensures
            r == *self,
    {
        Course {
            title: self.title.clone(),
            season: self.season.clone(),
            code: self.code.clone(),
            is_active: self.is_active,
            course_id: self.course_id,
            season_id: self.season_id,
        }
    }
}

/// A list of courses.
pub type Courses = Vec<Course>;

/// Reads the course list page.
pub struct CoursesParser;

impl CoursesParser {
    pub fn new() -> Self {
        CoursesParser
    }
}

/// Builds a `Course`: ids first, the other fields optionally; a field left
/// unset is empty, and a course is active unless set otherwise.
pub struct CourseBuilder {
    title: Option<String>,
    season: Option<String>,
    code: Option<String>,
    is_active: Option<bool>,
    course_id: i32,
    season_id: i32,
}

/// `o`, or the empty text when it is `None`.
pub open spec fn text_or_empty(o: Option<String>) -> Seq<char> {
    match o {
        Some(s) => s@,
        None => Seq::empty(),
    }
}

impl CourseBuilder {
    /// The course that `build` would give now.
    pub closed spec fn spec_course(&self) -> CourseView {
        CourseView {
            title: text_or_empty(self.title),
            season: text_or_empty(self.season),
            code: text_or_empty(self.code),
            is_active: match self.is_active {
                Some(b) => b,
                None => true,
            },
            course_id: self.course_id,
            season_id: self.season_id,
        }
    }

    /// A builder for the course with these ids and no other field set.
    pub fn new(course_id: i32, season_id: i32) -> (b: Self)
        ensures
            b.spec_course() == (CourseView {
                title: Seq::empty(),
                season: Seq::empty(),
                code: Seq::empty(),
                is_active: true,
                course_id,
                season_id,
            }),
    {
        CourseBuilder { course_id, season_id, title: None, season: None, code: None, is_active: None }
    }

    /// Sets the title.
    pub fn title(&mut self, title: String) -> (r: &mut Self)
        ensures
            r.spec_course() == (CourseView { title: title@, ..old(self).spec_course() }),
            final(self).spec_course() == final(r).spec_course(),
    {
        self.title = Some(title);
        self
    }

    /// Sets the season.
    pub fn season(&mut self, season: String) -> (r: &mut Self)
        ensures
            r.spec_course() == (CourseView { season: season@, ..old(self).spec_course() }),
            final(self).spec_course() == final(r).spec_course(),
    {
        self.season = Some(season);
        self
    }

    /// Sets the course code.
    pub fn code(&mut self, code: String) -> (r: &mut Self)
        ensures
            r.spec_course() == (CourseView { code: code@, ..old(self).spec_course() }),
            final(self).spec_course() == final(r).spec_course(),
    {
        self.code = Some(code);
        self
    }

    /// Sets whether the course is active.
    pub fn is_active(&mut self, is_active: bool) -> (r: &mut Self)
        ensures
            r.spec_course() == (CourseView { is_active, ..old(self).spec_course() }),
            final(self).spec_course() == final(r).spec_course(),
    {
        self.is_active = Some(is_active);
        self
    }

    /// The course built so far.
    pub fn build(self) -> (c: Course)
        ensures
            c@ == self.spec_course(),
    {
        Course {
            title: match self.title {
                Some(t) => t,
                None => String::new(),
            },
            season: match self.season {
                Some(s) => s,
                None => String::new(),
            },
            code: match self.code {
                Some(c) => c,
                None => String::new(),
            },
            is_active: match self.is_active {
                Some(b) => b,
                None => true,
            },
            course_id: self.course_id,
            season_id: self.season_id,
        }
    }
}

} // verus!
