//! The CMS client's configuration and the addresses of the pages it reads.
use vstd::prelude::*;
use crate::config::Credentials;
use crate::parser::models::course::{Course, CoursesParser};
use crate::text::{trim, int_text, trim_str, push_int};

verus! {

broadcast use vstd::string::group_string_axioms;

/// The CMS's address.
pub const CMS_BASE_URL: &'static str = "https://cms.giu-uni.de/";

/// The student's home page, which lists the courses.
pub const CMS_HOME: &'static str = "apps/student/HomePageStn.aspx";

/// The page of one course.
pub const CMS_COURSE_TEMPLATE: &'static str = "apps/student/CourseViewStn.aspx";

/// Collects what a client is built with: the credentials, if any, that it
/// authenticates with.
pub struct AuthenticatedClientBuilder<'a> {
    credentials: Option<&'a Credentials>,
}

impl<'a> AuthenticatedClientBuilder<'a> {
    /// The credentials the client will authenticate with.
    pub closed spec fn spec_credentials(&self) -> Option<Credentials> {
        match self.credentials {
            Some(c) => Some(*c),
            None => None,
        }
    }

    /// A builder without credentials.
    pub fn new() -> (b: Self)
        ensures
            b.spec_credentials() is None,
    {
        AuthenticatedClientBuilder { credentials: None }
    }

    /// Sets the credentials to authenticate with.
    pub fn authenticate(&mut self, credentials: &'a Credentials) -> (r: &mut Self)
        ensures
            r.spec_credentials() == Some(*credentials),
            final(self).spec_credentials() == final(r).spec_credentials(),
    {
        self.credentials = Some(credentials);
        self
    }

    /// The credentials to authenticate with, if set.
    pub fn credentials(&self) -> (r: Option<&'a Credentials>)
        ensures
            match r {
                Some(c) => self.spec_credentials() == Some(*c),
                None => self.spec_credentials() is None,
            },
    {
        self.credentials
    }
}

/// The address of the course list page.
pub open spec fn home_url() -> Seq<char> {
    CMS_BASE_URL@ + CMS_HOME@
}

/// The address of the page of the course with these ids.
pub open spec fn course_url(course_id: i32, season_id: i32) -> Seq<char> {
    trim(
        CMS_BASE_URL@ + CMS_COURSE_TEMPLATE@ + "?id="@ + int_text(course_id as int) + "&sid="@
            + int_text(season_id as int),
    )
}

/// A page whose HTML is read: it tells its address.
pub trait GetHtmlExt {
    /// The page's address.
    fn html_url(&self) -> String;
}

impl GetHtmlExt for CoursesParser {
    /// The course list page.
    fn html_url(&self) -> (r: String)
        ensures
            r@ == home_url(),
    {
        let mut u = String::from_str(CMS_BASE_URL);
        u.append(CMS_HOME);
        u
    }
}

impl GetHtmlExt for Course {
    /// The page of this course: `?id=<course id>&sid=<season id>`.
    fn html_url(&self) -> (r: String)
        ensures
            r@ == course_url(self.course_id, self.season_id),
    {
        let mut u = String::from_str(CMS_BASE_URL);
        u.append(CMS_COURSE_TEMPLATE);
        u.append("?id=");
        push_int(&mut u, self.course_id);
        u.append("&sid=");
        push_int(&mut u, self.season_id);
        trim_str(u.as_str())
    }
}

} // verus!
