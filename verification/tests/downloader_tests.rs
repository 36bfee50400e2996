use cms_dl::config::DownloadOptions;
use cms_dl::downloader::scheduler::{DownloadAction, DownloadScheduler, FinishAction, TransferLimit};
use cms_dl::downloader::{
    stored_links_ok, collect_items, download_url, max_prefix_len, plan_queue, CourseContent, Download,
    DownloadableItem,
};
use cms_dl::parser::{Content, ContentType, Course};

fn course(title: &str) -> Course {
    Course {
        title: title.to_string(),
        season: String::new(),
        code: String::new(),
        is_active: true,
        course_id: 1,
        season_id: 1,
    }
}

fn content(title: &str, t: ContentType, link: Option<&str>, description: Option<&str>) -> Content {
    Content {
        title: title.to_string(),
        content_type: t,
        description: description.map(String::from),
        download_link: link.map(String::from),
    }
}

fn options(max: Option<usize>) -> DownloadOptions {
    DownloadOptions { max_concurrency: max, max_file_size: None, save_path: "/base".to_string() }
}

#[test]
fn item_path_layout() {
    let item = DownloadableItem::new(course("Math"), content("Lecture 1", ContentType::LectureSlides, Some(" /f/a.b.pdf "), None));
    assert_eq!(item.path("/base").as_deref(), Some("/base/Math/Lecture Slides/Lecture 1.pdf"));
    assert_eq!(item.path(" ./d").as_deref(), Some("./d/Math/Lecture Slides/Lecture 1.pdf"));
    let none = DownloadableItem::new(course("Math"), content("X", ContentType::Exam, None, Some("d")));
    assert_eq!(none.path("/base"), None);
    assert_eq!(none.description_path("/base"), "/base/Math/X.txt");
    assert_eq!(item.label(), "Math -| Lecture 1");
}

#[test]
fn download_address() {
    assert_eq!(download_url("/files/a.pdf"), "https://cms.giu-uni.de/files/a.pdf");
}

fn sample() -> CourseContent {
    let mut c = CourseContent::new();
    c.insert(
        course("A"),
        vec![
            content("one", ContentType::LectureSlides, Some("/1.pdf"), None),
            content("video", ContentType::VoD, Some("/v.mp4"), None),
        ],
    );
    c.insert(
        course("B"),
        vec![
            content("two", ContentType::Exam, Some("/2.pdf"), None),
            content("note", ContentType::Other, None, Some("text")),
            content("three", ContentType::Project, Some("/3.zip"), None),
        ],
    );
    c
}

#[test]
fn course_content_insert_replaces_equal_courses() {
    let mut c = CourseContent::new();
    assert_eq!(c.len(), 0);
    assert_eq!(c.insert(course("A"), vec![content("x", ContentType::Exam, Some("/x.pdf"), None)]), None);
    assert_eq!(c.insert(course("B"), vec![]), None);
    let old = c.insert(course("A"), vec![content("y", ContentType::Exam, Some("/y.pdf"), None)]).unwrap();
    assert_eq!(old.len(), 1);
    assert_eq!(old[0].title, "x");
    assert_eq!(c.len(), 2);
    let items = collect_items(&c);
    assert_eq!(items.len(), 1);
    assert_eq!(items[0].title, "y");
    assert_eq!(items[0].course.title, "A");
}

#[test]
fn collect_items_flattens_in_order() {
    let items = collect_items(&sample());
    let titles: Vec<&str> = items.iter().map(|i| i.title.as_str()).collect();
    assert_eq!(titles, vec!["one", "video", "two", "note", "three"]);
    assert_eq!(items[2].course.title, "B");
    assert_eq!(sample().download_items().len(), 5);
    assert!(stored_links_ok(&items));
}

#[test]
fn missing_extension_is_detected() {
    let items = vec![DownloadableItem::new(course("A"), content("x", ContentType::Exam, Some("/noext"), None))];
    assert!(!stored_links_ok(&items));
    let videos = vec![DownloadableItem::new(course("A"), content("v", ContentType::VoD, Some("/stream"), None))];
    assert!(stored_links_ok(&videos));
}

#[test]
fn plan_queue_skips_videos_linkless_and_existing() {
    let items = collect_items(&sample());
    let queue = plan_queue(items, &vec![false, false, true, false, false]);
    let titles: Vec<&str> = queue.iter().map(|i| i.title.as_str()).collect();
    assert_eq!(titles, vec!["one", "three"]);
}

#[test]
fn prefix_width_is_widest_label_plus_one() {
    let items = collect_items(&sample());
    assert_eq!(max_prefix_len(&items), "B -| three".len() + 1);
    assert_eq!(max_prefix_len(&Vec::new()), 0);
}

#[test]
fn scheduler_runs_at_most_capacity() {
    let items = collect_items(&sample());
    let queue = plan_queue(items, &vec![false; 5]);
    assert_eq!(queue.len(), 3);
    let mut s = DownloadScheduler::new(queue, &options(Some(2)));
    match s.next_action() {
        DownloadAction::Start { token, url, path, label } => {
            assert_eq!(token, 0);
            assert_eq!(url, "https://cms.giu-uni.de/1.pdf");
            assert_eq!(path, "/base/A/Lecture Slides/one.pdf");
            assert_eq!(label, "A -| one");
        }
        _ => panic!("expected a start"),
    }
    assert!(matches!(s.next_action(), DownloadAction::Start { token: 1, .. }));
    assert!(matches!(s.next_action(), DownloadAction::Wait));
    assert!(matches!(s.finish(7, false), FinishAction::NotRunning));
    assert!(matches!(s.finish(0, false), FinishAction::Keep));
    assert!(matches!(s.finish(0, false), FinishAction::NotRunning));
    assert!(matches!(s.next_action(), DownloadAction::Start { token: 2, .. }));
    assert!(matches!(s.next_action(), DownloadAction::Wait));
    match s.finish(2, true) {
        FinishAction::Remove { path } => assert_eq!(path, "/base/B/Project/three.zip"),
        _ => panic!("expected a removal"),
    }
    assert!(matches!(s.finish(1, false), FinishAction::Keep));
    assert!(s.is_done());
    assert!(matches!(s.next_action(), DownloadAction::Done));
}

#[test]
fn scheduler_default_capacity_is_three() {
    let items: Vec<DownloadableItem> = (0..5)
        .map(|i| DownloadableItem::new(course("C"), content(&format!("f{i}"), ContentType::Exam, Some("/x.pdf"), None)))
        .collect();
    let mut s = DownloadScheduler::new(items, &options(None));
    let mut started = 0;
    while let DownloadAction::Start { .. } = s.next_action() {
        started += 1;
    }
    assert_eq!(started, 3);
}

#[test]
fn scheduler_writes_descriptions_and_skips_empty_items() {
    let items = vec![
        DownloadableItem::new(course("C"), content("n", ContentType::Other, None, Some("hello"))),
        DownloadableItem::new(course("C"), content("e", ContentType::Other, None, None)),
    ];
    let mut s = DownloadScheduler::new(items, &options(Some(1)));
    match s.next_action() {
        DownloadAction::WriteDescription { path, text } => {
            assert_eq!(path, "/base/C/n.txt");
            assert_eq!(text, "hello");
        }
        _ => panic!("expected a description"),
    }
    assert!(matches!(s.next_action(), DownloadAction::Skip));
    assert!(matches!(s.next_action(), DownloadAction::Done));
}

#[test]
fn empty_run_is_done() {
    let mut s = DownloadScheduler::new(Vec::new(), &options(Some(3)));
    assert!(s.is_done());
    assert!(matches!(s.next_action(), DownloadAction::Done));
}

#[test]
fn transfer_limit_stops_large_files() {
    let mut t = TransferLimit::new(Some(10));
    assert!(t.accept(4));
    assert!(t.accept(6));
    assert_eq!(t.downloaded_size, 10);
    assert!(!t.accept(1));
    assert_eq!(t.downloaded_size, 10);
    assert_eq!(t.error_msg.as_deref(), Some("file exceeds the maximum file size"));
    let mut u = TransferLimit::new(None);
    assert!(u.accept(usize::MAX));
    assert!(u.accept(5));
    assert_eq!(u.downloaded_size, usize::MAX);
    assert_eq!(u.error_msg, None);
}
