use cms_dl::parser::Course;
use cms_dl::utils::{is_valid_path, path_verdict, pick_courses, requested_courses, CourseFilter};

fn course(title: &str, code: &str, id: i32, season: &str) -> Course {
    Course {
        title: title.to_string(),
        season: season.to_string(),
        code: code.to_string(),
        is_active: true,
        course_id: id,
        season_id: 1,
    }
}

#[test]
fn deduplicate_keeps_first_of_each_key() {
    let v = vec![
        course("A", "X", 1, "s1"),
        course("B", "Y", 2, "s1"),
        course("A", "X", 1, "s2"),
        course("A", "X", 3, "s3"),
        course("B", "Y", 2, "s4"),
    ];
    let d = v.deduplicate();
    assert_eq!(d.len(), 3);
    assert_eq!(d[0].season, "s1");
    assert_eq!(d[1].title, "B");
    assert_eq!(d[2].course_id, 3);
    assert_eq!(d.deduplicate(), d);
    assert!(Vec::<Course>::new().deduplicate().is_empty());
}

#[test]
fn find_by_ids_needs_every_id() {
    let v = vec![course("A", "X", 34, "s"), course("B", "Y", 2488, "s"), course("C", "Z", 7, "s"), course("D", "W", 34, "t")];
    let found = v.find_by_ids(&[34, 2488]).unwrap();
    assert_eq!(found.len(), 3);
    assert_eq!(found[0].title, "A");
    assert_eq!(found[1].title, "B");
    assert_eq!(found[2].title, "D");
    assert_eq!(v.find_by_ids(&[34, 99]), None);
    assert_eq!(v.find_by_ids(&[]), Some(vec![]));
}

#[test]
fn requested_courses_falls_back_to_all() {
    let v = vec![course("A", "X", 34, "s"), course("B", "Y", 2488, "s")];
    assert_eq!(requested_courses(v.clone(), &[]), v);
    assert_eq!(requested_courses(v.clone(), &[2488]), vec![v[1].clone()]);
    assert_eq!(requested_courses(v.clone(), &[5]), v);
}

#[test]
fn pick_courses_follows_the_selection() {
    let v = vec![course("A", "X", 1, "s"), course("B", "Y", 2, "s"), course("C", "Z", 3, "s")];
    let p = pick_courses(&v, &[2, 0]);
    assert_eq!(p, vec![v[2].clone(), v[0].clone()]);
    assert!(pick_courses(&v, &[]).is_empty());
}

#[test]
fn path_verdict_follows_absoluteness_and_cwd() {
    assert!(path_verdict("/abs", true, None));
    assert!(path_verdict("rel", false, Some("/home/u")));
    assert!(!path_verdict("rel", false, None));
    assert!(!path_verdict("a\0b", true, Some("/home/u")));
    assert!(path_verdict("", false, Some("/home/u")));
    assert!(!path_verdict("", false, Some("")));
    assert!(!path_verdict("", true, Some("/home/u")));
}

#[test]
fn is_valid_path_on_this_system() {
    assert!(is_valid_path("/tmp/x", None));
    assert!(is_valid_path("./Downloads", Some("/home/u")));
    assert!(!is_valid_path("./Downloads", None));
    assert!(!is_valid_path("a\0b", Some("/home/u")));
    assert!(is_valid_path("", Some("/home/u")));
}
