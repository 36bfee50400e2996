//! Reading the student's course list.
use vstd::prelude::*;
use crate::html::{ElementData, ElementView, document_groups, regex_captures, fixed_html, select_groups, captures, fix_html};
use crate::text::{trim, lowercase, parse_i32_spec, parse_i32, trim_str, to_lowercase};
use super::content::{list_at, LINK_ATTRIBUTE};
use super::error::{Error, ErrorView};
use super::models::course::{Course, CourseView, CourseBuilder, CoursesParser, Courses};
use super::Parsable;

verus! {

broadcast use vstd::string::group_string_axioms;

/// The rows of the course table; the first row is its header.
pub const COURSES_SELECTOR: &'static str = "#ContentPlaceHolderright_ContentPlaceHoldercontent_GridViewcourses > tbody > tr";

/// The cells of a row.
pub const CELL_SELECTOR: &'static str = "td";

/// A course cell's text `(|CODE|) Name`: group 1 is the code, group 2 the name.
pub const COURSE_PATTERN: &'static str = r"\(\|(?P<code>[A-Z0-9]+)\|\)\s+(?P<name>[^()]+)";

/// The group of `caps` at `i`, trimmed, if it took part in the match.
pub open spec fn trimmed_group(caps: Option<Seq<Option<Seq<char>>>>, i: int) -> Option<Seq<char>> {
    match caps {
        Some(g) => if 0 <= i < g.len() && g[i] is Some {
            Some(trim(g[i]->0))
        } else {
            None
        },
        None => None,
    }
}

/// `o`'s text, or the empty text.
pub open spec fn or_empty(o: Option<Seq<char>>) -> Seq<char> {
    match o {
        Some(s) => s,
        None => Seq::empty(),
    }
}

/// The course of a row, from its ids, the captures of the course pattern on
/// its title cell, its lower-cased status cell and its season cell: code and
/// name come trimmed from the captures; the course is active when its status
/// reads `active`, or when there is no status.
pub open spec fn course_spec(
    course_id: i32,
    season_id: i32,
    caps: Option<Seq<Option<Seq<char>>>>,
    status: Option<Seq<char>>,
    season: Option<Seq<char>>,
) -> CourseView {
    CourseView {
        title: or_empty(trimmed_group(caps, 2)),
        season: or_empty(season),
        code: or_empty(trimmed_group(caps, 1)),
        is_active: match status {
            Some(s) => s == "active"@,
            None => true,
        },
        course_id,
        season_id,
    }
}

/// Builds the course of a row from what was read of it.
pub fn course_from_parts(
    course_id: i32,
    season_id: i32,
    caps: Option<Vec<Option<String>>>,
    status: Option<String>,
    season: Option<String>,
) -> (c: Course)
    ensures
        c@ == course_spec(course_id, season_id, caps.deep_view(), status.deep_view(), season.deep_view()),
{
    let mut builder = CourseBuilder::new(course_id, season_id);
    match &caps {
        Some(groups) => {
            if groups.len() > 1 {
                match &groups[1] {
                    Some(code) => {
                        builder.code(trim_str(code.as_str()));
                    },
                    None => {},
                }
            }
            if groups.len() > 2 {
                match &groups[2] {
                    Some(name) => {
                        builder.title(trim_str(name.as_str()));
                    },
                    None => {},
                }
            }
        },
        None => {},
    }
    match status {
        Some(s) => {
            let active = String::from_str("active");
            builder.is_active(s == active);
        },
        None => {},
    }
    match season {
        Some(s) => {
            builder.season(s);
        },
        None => {},
    }
    builder.build()
}

/// What a row of the course table gives: nothing unless it has the six cells
/// up to the season id; else its ids parsed (an error if one is not an
/// `i32`), then the course that `course_spec` gives from the captures of the
/// course pattern on the decoded title cell, the lower-cased status cell and
/// the season cell.
pub open spec fn row_course(row: Seq<Seq<ElementView>>) -> Result<Option<CourseView>, ErrorView> {
    let cells = list_at(row, 0);
    if cells.len() < 6 {
        Ok(None)
    } else {
        match parse_i32_spec(cells[4].inner_html) {
            Err(k) => Err(ErrorView::ParseInt(k)),
            Ok(cid) => match parse_i32_spec(cells[5].inner_html) {
                Err(k) => Err(ErrorView::ParseInt(k)),
                Ok(sid) => match regex_captures(COURSE_PATTERN@, fixed_html(cells[1].inner_html)) {
                    Err(m) => Err(ErrorView::Regex(m)),
                    Ok(caps) => Ok(
                        Some(
                            course_spec(
                                cid as i32,
                                sid as i32,
                                caps,
                                Some(lowercase(cells[2].inner_html)),
                                Some(cells[3].inner_html),
                            ),
                        ),
                    ),
                },
            },
        }
    }
}

/// The courses of a sequence of rows, in order, or the first row's error.
pub open spec fn rows_courses(rows: Seq<Seq<Seq<ElementView>>>) -> Result<Seq<CourseView>, ErrorView>
    decreases rows.len(),
{
    if rows.len() == 0 {
        Ok(Seq::empty())
    } else {
        match rows_courses(rows.drop_last()) {
            Err(e) => Err(e),
            Ok(items) => match row_course(rows.last()) {
                Err(e) => Err(e),
                Ok(None) => Ok(items),
                Ok(Some(c)) => Ok(items.push(c)),
            },
        }
    }
}

/// The courses of the course list page `html`: those of its table's rows,
/// the header row left out.
pub open spec fn page_courses(html: Seq<char>) -> Result<Seq<CourseView>, ErrorView> {
    match document_groups(html, COURSES_SELECTOR@, seq![CELL_SELECTOR@], LINK_ATTRIBUTE@) {
        Err(m) => Err(ErrorView::Selector(m)),
        Ok(rows) => if rows.len() == 0 {
            Ok(Seq::empty())
        } else {
            rows_courses(rows.drop_first())
        },
    }
}

/// The courses as plain values.
pub open spec fn courses_view(v: Seq<Course>) -> Seq<CourseView> {
    v.map_values(|c: Course| c@)
}

fn row_item(row: &Vec<Vec<ElementData>>) -> (r: Result<Option<Course>, Error>)
    requires
        row.len() == 1,
    ensures
        match r {
            Ok(Some(c)) => row_course(row.deep_view()) == Ok::<Option<CourseView>, ErrorView>(Some(c@)),
            Ok(None) => row_course(row.deep_view()) == Ok::<Option<CourseView>, ErrorView>(None),
            Err(e) => row_course(row.deep_view()) == Err::<Option<CourseView>, ErrorView>(e@),
        },
{
    assert(list_at(row.deep_view(), 0) == row[0].deep_view());
    let cells = &row[0];
    if cells.len() < 6 {
        return Ok(None);
    }
    let course_id = match parse_i32(cells[4].inner_html.as_str()) {
        Ok(v) => v,
        Err(k) => return Err(Error::ParseInt(k)),
    };
    let season_id = match parse_i32(cells[5].inner_html.as_str()) {
        Ok(v) => v,
        Err(k) => return Err(Error::ParseInt(k)),
    };
    let title = fix_html(cells[1].inner_html.as_str());
    let caps = match captures(COURSE_PATTERN, title.as_str()) {
        Ok(c) => c,
        Err(m) => return Err(Error::Regex(m)),
    };
    let status = to_lowercase(cells[2].inner_html.as_str());
    let season = cells[3].inner_html.clone();
    Ok(Some(course_from_parts(course_id, season_id, caps, Some(status), Some(season))))
}

proof fn lemma_rows_error_stays(rows: Seq<Seq<Seq<ElementView>>>, n: int)
    requires
        0 <= n <= rows.len(),
        rows_courses(rows.take(n)) is Err,
    ensures
        rows_courses(rows) == rows_courses(rows.take(n)),
    decreases rows.len() - n,
{
    if n < rows.len() {
        assert(rows.take(n + 1).drop_last() == rows.take(n));
        lemma_rows_error_stays(rows, n + 1);
    } else {
        assert(rows.take(n) == rows);
    }
}

/// How many of `rows` have the six cells up to the season id.
pub open spec fn full_row_count(rows: Seq<Seq<Seq<ElementView>>>) -> nat
    decreases rows.len(),
{
    if rows.len() == 0 {
        0
    } else {
        full_row_count(rows.drop_last()) + if list_at(rows.last(), 0).len() >= 6 {
            1nat
        } else {
            0nat
        }
    }
}

/// Each row with the six cells gives one course, and no other row gives one:
/// when the rows are read without error there are as many courses as such
/// rows, and the last row, when it has them, gives the last course.
pub proof fn lemma_rows_courses_count(rows: Seq<Seq<Seq<ElementView>>>, v: Seq<CourseView>)
    requires
        rows_courses(rows) == Ok::<Seq<CourseView>, ErrorView>(v),
    ensures
        v.len() == full_row_count(rows),
        rows.len() > 0 && list_at(rows.last(), 0).len() >= 6 ==> v.len() > 0 && row_course(rows.last())
            == Ok::<Option<CourseView>, ErrorView>(Some(v.last())),
    decreases rows.len(),
{
    if rows.len() > 0 {
        match rows_courses(rows.drop_last()) {
            Ok(items) => {
                lemma_rows_courses_count(rows.drop_last(), items);
            },
            Err(_) => {},
        }
    }
}

/// Rows are read one after another: a single row `row` gives its course,
/// nothing, or its error, and reading two runs of rows that each read without error
/// gives the courses of the first run followed by those of the second.
pub proof fn lemma_rows_courses_concat(
    row: Seq<Seq<ElementView>>,
    a: Seq<Seq<Seq<ElementView>>>,
    b: Seq<Seq<Seq<ElementView>>>,
    va: Seq<CourseView>,
    vb: Seq<CourseView>,
)
    ensures
        rows_courses(seq![row]) == match row_course(row) {
            Ok(Some(c)) => Ok::<Seq<CourseView>, ErrorView>(seq![c]),
            Ok(None) => Ok::<Seq<CourseView>, ErrorView>(Seq::empty()),
            Err(e) => Err::<Seq<CourseView>, ErrorView>(e),
        },
        rows_courses(a) == Ok::<Seq<CourseView>, ErrorView>(va) && rows_courses(b) == Ok::<
            Seq<CourseView>,
            ErrorView,
        >(vb) ==> rows_courses(a + b) == Ok::<Seq<CourseView>, ErrorView>(va + vb),
    decreases b.len(),
{
    let one = seq![row];
    assert(one.drop_last() == Seq::<Seq<Seq<ElementView>>>::empty());
    assert(one.last() == row);
    assert(rows_courses(one.drop_last()) == Ok::<Seq<CourseView>, ErrorView>(Seq::empty()));
    match row_course(row) {
        Ok(Some(c)) => {
            assert(Seq::<CourseView>::empty().push(c) == seq![c]);
        },
        _ => {},
    }
    if rows_courses(a) == Ok::<Seq<CourseView>, ErrorView>(va) && rows_courses(b) == Ok::<
        Seq<CourseView>,
        ErrorView,
    >(vb) {
        if b.len() == 0 {
            assert(a + b == a);
            assert(va + vb == va);
        } else {
            let p = b.drop_last();
            assert((a + b).drop_last() == a + p);
            assert((a + b).last() == b.last());
            match rows_courses(p) {
                Ok(vp) => {
                    lemma_rows_courses_concat(row, a, p, va, vp);
                    match row_course(b.last()) {
                        Ok(Some(c)) => {
                            assert(va + vp.push(c) == (va + vp).push(c));
                        },
                        _ => {},
                    }
                },
                Err(_) => {},
            }
        }
    }
}

/// Every row of the course table after the header row that has the six cells
/// gives a course, the last row included: when the page is read without
/// error, there are as many courses as such rows after the header, and the
/// last row of the table, when it is such a row after the header, gives the
/// last course.
pub proof fn lemma_page_courses_rows(html: Seq<char>, rows: Seq<Seq<Seq<ElementView>>>, v: Seq<CourseView>)
    requires
        document_groups(html, COURSES_SELECTOR@, seq![CELL_SELECTOR@], LINK_ATTRIBUTE@) == Ok::<
            Seq<Seq<Seq<ElementView>>>,
            Seq<char>,
        >(rows),
        page_courses(html) == Ok::<Seq<CourseView>, ErrorView>(v),
    ensures
        rows.len() == 0 ==> v.len() == 0,
        rows.len() > 0 ==> v.len() == full_row_count(rows.subrange(1, rows.len() as int)),
        rows.len() > 1 && list_at(rows.last(), 0).len() >= 6 ==> v.len() > 0 && row_course(rows.last())
            == Ok::<Option<CourseView>, ErrorView>(Some(v.last())),
{
    if rows.len() > 0 {
        let body = rows.drop_first();
        assert(body == rows.subrange(1, rows.len() as int));
        lemma_rows_courses_count(body, v);
        if rows.len() > 1 {
            assert(body.last() == rows.last());
        }
    }
}

/// Reads the courses of the course list page `html`, in table order.
pub fn parse_courses(html: &str) -> (r: Result<Courses, Error>)
    ensures
        match r {
            Ok(v) => page_courses(html@) == Ok::<Seq<CourseView>, ErrorView>(courses_view(v@)),
            Err(e) => page_courses(html@) == Err::<Seq<CourseView>, ErrorView>(e@),
        },
{
    let inners = vec![CELL_SELECTOR];
    assert(inners.deep_view() =~= seq![CELL_SELECTOR@]);
    let groups = match select_groups(html, COURSES_SELECTOR, &inners, LINK_ATTRIBUTE) {
        Ok(g) => g,
        Err(m) => return Err(Error::Selector(m)),
    };
    let ghost all = groups.deep_view();
    let mut out: Vec<Course> = Vec::new();
    if groups.len() == 0 {
        assert(courses_view(out@) =~= Seq::<CourseView>::empty());
        return Ok(out);
    }
    let ghost rows = all.drop_first();
    let mut i: usize = 1;
    assert(rows.take(0) =~= Seq::<Seq<Seq<ElementView>>>::empty());
    assert(courses_view(out@) =~= Seq::<CourseView>::empty());
    while i < groups.len()
        invariant
            1 <= i <= groups.len(),
            all == groups.deep_view(),
            rows == all.drop_first(),
            forall|k: int| 0 <= k < groups.len() ==> #[trigger] groups[k].len() == 1,
            page_courses(html@) == rows_courses(rows),
            rows_courses(rows.take(i - 1)) == Ok::<Seq<CourseView>, ErrorView>(courses_view(out@)),
        decreases groups.len() - i,
    {
        assert(rows.take(i as int).drop_last() == rows.take(i - 1));
        assert(rows.take(i as int).last() == groups[i as int].deep_view());
        match row_item(&groups[i]) {
            Err(e) => {
                proof { lemma_rows_error_stays(rows, i as int); }
                return Err(e);
            },
            Ok(None) => {},
            Ok(Some(c)) => {
                let ghost prev = out@;
                out.push(c);
                assert(courses_view(out@) =~= courses_view(prev).push(c@));
            },
        }
        i += 1;
    }
    assert(rows.take(groups.len() - 1) == rows);
    Ok(out)
}

impl Parsable<Courses> for CoursesParser {
    /// Reads the courses of the course list page `html`, in table order.
    fn parse(&self, html: &str) -> (r: Result<Courses, Error>)
        ensures
            match r {
                Ok(v) => page_courses(html@) == Ok::<Seq<CourseView>, ErrorView>(courses_view(v@)),
                Err(e) => page_courses(html@) == Err::<Seq<CourseView>, ErrorView>(e@),
            },
    {
        parse_courses(html)
    }
}

} // verus!
