use cms_dl::parser::course::{course_from_parts, parse_courses};
use cms_dl::parser::error::Error;
use cms_dl::parser::models::course::{CourseBuilder, CoursesParser};
use cms_dl::parser::{Course, Parsable};
use cms_dl::text::IntErrorKind;

#[test]
fn course_builder_defaults() {
    let c = CourseBuilder::new(34, 61).build();
    assert_eq!(c.title, "");
    assert_eq!(c.season, "");
    assert_eq!(c.code, "");
    assert!(c.is_active);
    assert_eq!(c.course_id, 34);
    assert_eq!(c.season_id, 61);
}

#[test]
fn course_builder_sets_fields() {
    let mut b = CourseBuilder::new(1, 2);
    b.title("Title".to_string()).code("CODE".to_string()).season("S".to_string()).is_active(false);
    let c = b.build();
    assert_eq!(c.title, "Title");
    assert_eq!(c.code, "CODE");
    assert_eq!(c.season, "S");
    assert!(!c.is_active);
}

#[test]
fn by_value_builder_sets_fields() {
    let c = cms_dl::models::CourseBuilder::new(5, 6)
        .title("T".to_string())
        .season("S".to_string())
        .code("C".to_string())
        .is_active(false)
        .build();
    let shown = format!("{:?}", c);
    assert!(shown.contains("title: \"T\""));
    assert!(shown.contains("season: \"S\""));
    assert!(shown.contains("code: \"C\""));
    assert!(shown.contains("is_active: false"));
    assert!(shown.contains("course_id: 5"));
    let d = format!("{:?}", cms_dl::models::CourseBuilder::new(1, 2).build());
    assert!(d.contains("is_active: true"));
    assert!(d.contains("title: \"\""));
}

#[test]
fn course_from_parts_takes_code_and_name() {
    let caps = Some(vec![Some("(|CSEN401|) Lab".to_string()), Some(" CSEN401 ".to_string()), Some(" Lab  ".to_string())]);
    let c = course_from_parts(34, 61, caps, Some("active".to_string()), Some("Spring 2025".to_string()));
    assert_eq!(c.code, "CSEN401");
    assert_eq!(c.title, "Lab");
    assert!(c.is_active);
    assert_eq!(c.season, "Spring 2025");
    let inactive = course_from_parts(1, 2, None, Some("inactive".to_string()), None);
    assert!(!inactive.is_active);
    assert_eq!(inactive.title, "");
    assert_eq!(inactive.code, "");
    assert_eq!(inactive.season, "");
}

const HOME: &str = r#"<html><body>
<table id="ContentPlaceHolderright_ContentPlaceHoldercontent_GridViewcourses"><tbody>
<tr><th>#</th><th>Course</th><th>Status</th><th>Season</th><th>Id</th><th>Sid</th></tr>
<tr><td>1</td><td>(|CSEN401|) Computer Programming Lab</td><td>Active</td><td>Spring 2025</td><td>34</td><td>61</td></tr>
<tr><td>2</td><td>(|MATH203|)   Mathematics&nbsp;III</td><td>Past</td><td>Winter 2024</td><td>2488</td><td>60</td></tr>
<tr><td>3</td><td>short row</td></tr>
</tbody></table>
</body></html>"#;

#[test]
fn parse_courses_reads_the_table() {
    let courses = parse_courses(HOME).unwrap();
    assert_eq!(courses.len(), 2);
    assert_eq!(
        courses[0],
        Course {
            title: "Computer Programming Lab".to_string(),
            season: "Spring 2025".to_string(),
            code: "CSEN401".to_string(),
            is_active: true,
            course_id: 34,
            season_id: 61,
        }
    );
    assert_eq!(courses[1].title, "MathematicsIII");
    assert_eq!(courses[1].code, "MATH203");
    assert!(!courses[1].is_active);
    assert_eq!(courses[1].course_id, 2488);
    assert_eq!(courses[1].season_id, 60);
}

#[test]
fn parse_courses_reports_a_bad_id() {
    let page = HOME.replace("<td>2488</td>", "<td>x1</td>");
    match parse_courses(&page) {
        Err(Error::ParseInt(k)) => assert_eq!(k, IntErrorKind::InvalidDigit),
        other => panic!("unexpected {:?}", other),
    }
}

#[test]
fn courses_parser_uses_the_same_reading() {
    let parser = CoursesParser::new();
    assert_eq!(parser.parse(HOME).unwrap().len(), 2);
    assert!(parser.parse("<html><body></body></html>").unwrap().is_empty());
}
