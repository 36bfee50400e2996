use cms_dl::parser::content::{content_from_parts, parse_contents};
use cms_dl::parser::models::content::{Content, ContentBuilder, ContentType};
use cms_dl::parser::{Course, Parsable};

const ALL_TYPES: [ContentType; 11] = [
    ContentType::Exam,
    ContentType::ExamSolution,
    ContentType::LectureSlides,
    ContentType::TutorialNotes,
    ContentType::SupplementaryNotes,
    ContentType::Assignment,
    ContentType::AssignmentSolution,
    ContentType::LabManual,
    ContentType::Project,
    ContentType::VoD,
    ContentType::Other,
];

#[test]
fn labels_are_the_display_names() {
    assert_eq!(ContentType::Exam.label(), "Exam");
    assert_eq!(ContentType::ExamSolution.label(), "Exam Solution");
    assert_eq!(ContentType::LectureSlides.label(), "Lecture Slides");
    assert_eq!(ContentType::TutorialNotes.label(), "Tutorial Notes");
    assert_eq!(ContentType::SupplementaryNotes.label(), "Supplementary Notes");
    assert_eq!(ContentType::Assignment.label(), "Assignment");
    assert_eq!(ContentType::AssignmentSolution.label(), "Assignment Solution");
    assert_eq!(ContentType::LabManual.label(), "Lab Manual");
    assert_eq!(ContentType::Project.label(), "Project");
    assert_eq!(ContentType::VoD.label(), "VoD");
    assert_eq!(ContentType::Other.label(), "Other");
}

#[test]
fn every_label_reads_back_as_its_type() {
    for t in ALL_TYPES {
        assert_eq!(ContentType::from_label(&t.label()), t);
        assert_eq!(ContentType::from(t.label().as_str()), t);
    }
}

#[test]
fn from_label_ignores_case_and_surrounding_space() {
    assert_eq!(ContentType::from("  LECTURE slides \n"), ContentType::LectureSlides);
    assert_eq!(ContentType::from("vod"), ContentType::VoD);
    assert_eq!(ContentType::from("lab  manual"), ContentType::Other);
    assert_eq!(ContentType::from(""), ContentType::Other);
    assert_eq!(ContentType::default(), ContentType::Other);
}

#[test]
fn content_builder_sets_optional_fields() {
    let mut b = ContentBuilder::new("T".to_string(), ContentType::Project);
    b.description("d".to_string()).download_link("/l".to_string());
    let c = b.build();
    assert_eq!(c.title, "T");
    assert_eq!(c.content_type, ContentType::Project);
    assert_eq!(c.description.as_deref(), Some("d"));
    assert_eq!(c.download_link.as_deref(), Some("/l"));
    let plain = ContentBuilder::new("U".to_string(), ContentType::Exam).build();
    assert_eq!(plain.description, None);
    assert_eq!(plain.download_link, None);
}

fn caps(groups: &[Option<&str>]) -> Option<Vec<Option<String>>> {
    Some(groups.iter().map(|g| g.map(String::from)).collect())
}

#[test]
fn content_from_parts_builds_the_item() {
    let c = content_from_parts(
        caps(&[Some("1 - Intro"), Some("Intro")]),
        Some(" (Lecture Slides) ".to_string()),
        Some("About it".to_string()),
        Some("  /files/a.pdf ".to_string()),
    )
    .unwrap();
    assert_eq!(
        c,
        Content {
            title: "Intro".to_string(),
            content_type: ContentType::LectureSlides,
            description: Some("About it".to_string()),
            download_link: Some("/files/a.pdf".to_string()),
        }
    );
}

#[test]
fn content_from_parts_drops_empty_description_and_link() {
    let c = content_from_parts(caps(&[Some("x"), Some("X")]), Some("(Exam)".to_string()), Some(String::new()), Some(String::new())).unwrap();
    assert_eq!(c.description, None);
    assert_eq!(c.download_link, None);
    assert_eq!(c.content_type, ContentType::Exam);
    let blank = content_from_parts(caps(&[Some("x"), Some("X")]), Some("(Exam)".to_string()), None, Some("  ".to_string())).unwrap();
    assert_eq!(blank.download_link.as_deref(), Some(""));
}

#[test]
fn content_from_parts_needs_title_and_type() {
    assert_eq!(content_from_parts(None, Some("(Exam)".to_string()), None, None), None);
    assert_eq!(content_from_parts(caps(&[Some("x"), None]), Some("(Exam)".to_string()), None, None), None);
    assert_eq!(content_from_parts(caps(&[Some("x")]), Some("(Exam)".to_string()), None, None), None);
    assert_eq!(content_from_parts(caps(&[Some("x"), Some("X")]), None, None, None), None);
}

#[test]
fn unknown_type_text_is_other() {
    let c = content_from_parts(caps(&[Some("x"), Some("X")]), Some("(Mystery)".to_string()), None, None).unwrap();
    assert_eq!(c.content_type, ContentType::Other);
}

const PAGE: &str = r#"<html><body>
<div class="card weeksdata">
  <div class="card mb-4"><div class="card-body">
    <div id="content11"><strong>1 - Lecture&nbsp;1 &amp; more</strong> (Lecture Slides)</div>
    <div>Intro slides</div>
    <a class="btn btn-primary contentbtn" id="download" href=" /files/lec1.pdf ">Download</a>
  </div></div>
  <div class="card mb-4"><div class="card-body">
    <div id="content12"><strong>No number here</strong> (Exam)</div>
  </div></div>
  <div class="card mb-4"><div class="card-body">
    <div id="content13"><strong>2 - Sheet</strong> (Assignment)</div>
    <div></div>
  </div></div>
</div>
</body></html>"#;

#[test]
fn parse_contents_reads_numbered_cards() {
    let items = parse_contents(PAGE).unwrap();
    assert_eq!(items.len(), 2);
    assert_eq!(items[0].title, "Lecture1 & more");
    assert_eq!(items[0].content_type, ContentType::LectureSlides);
    assert_eq!(items[0].description.as_deref(), Some("Intro slides"));
    assert_eq!(items[0].download_link.as_deref(), Some("/files/lec1.pdf"));
    assert_eq!(items[1].title, "Sheet");
    assert_eq!(items[1].content_type, ContentType::Assignment);
    assert_eq!(items[1].description, None);
    assert_eq!(items[1].download_link, None);
}

#[test]
fn course_parse_reads_its_page() {
    let course = Course {
        title: "T".to_string(),
        season: "S".to_string(),
        code: "C".to_string(),
        is_active: true,
        course_id: 1,
        season_id: 2,
    };
    let items = course.parse(PAGE).unwrap();
    assert_eq!(items.len(), 2);
    assert!(course.parse("<html></html>").unwrap().is_empty());
}

#[test]
fn from_label_lowers_non_ascii_text_too() {
    assert_eq!(ContentType::from("ÉXAM"), ContentType::Other);
    assert_eq!(ContentType::from("PROJECT"), ContentType::Project);
}
