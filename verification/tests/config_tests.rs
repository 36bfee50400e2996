use cms_dl::client::{AuthenticatedClientBuilder, GetHtmlExt};
use cms_dl::config::{Config, Credentials, DownloadOptions, GeneralOptions, DEFAULT_MAX_CONCURRENCY};
use cms_dl::parser::{Course, CoursesParser};

#[test]
fn credentials_new_copies_texts() {
    let c = Credentials::new("john.doe", "secret123");
    assert_eq!(c.username, "john.doe");
    assert_eq!(c.password, "secret123");
}

#[test]
fn password_needs_eight_characters() {
    assert_eq!(Credentials::validate_password("12345678"), Ok(()));
    assert_eq!(Credentials::validate_password("mySecurePassword123"), Ok(()));
    assert_eq!(Credentials::validate_password("1234567"), Err("Password must be longer than 8 characters long."));
    assert!(Credentials::validate_password("").is_err());
    assert_eq!(Credentials::validate_password("ääääääää"), Ok(()));
}

#[test]
fn concurrency_defaults_to_three() {
    let mut o = DownloadOptions { max_concurrency: None, max_file_size: None, save_path: "./Downloads".to_string() };
    assert_eq!(o.concurrency(), 3);
    assert_eq!(DEFAULT_MAX_CONCURRENCY, 3);
    o.max_concurrency = Some(5);
    assert_eq!(o.concurrency(), 5);
}

#[test]
fn general_options_default_is_not_interactive() {
    assert!(!GeneralOptions::default().interactive_filtering);
}

#[test]
fn config_from_arguments_uses_defaults() {
    let c = Config::from_arguments("u", "password1", "./D".to_string()).unwrap();
    assert_eq!(c.credentials.username, "u");
    assert_eq!(c.credentials.password, "password1");
    assert!(!c.general_options.interactive_filtering);
    assert_eq!(c.download_options.max_concurrency, None);
    assert_eq!(c.download_options.max_file_size, None);
    assert_eq!(c.download_options.save_path, "./D");
}

#[test]
fn update_credentials_replaces_only_them() {
    let mut c = Config::from_arguments("u", "password1", "./D".to_string()).unwrap();
    c.download_options.max_file_size = Some(104857600);
    c.update_credentials("v".to_string(), "password2".to_string());
    assert_eq!(c.credentials.username, "v");
    assert_eq!(c.credentials.password, "password2");
    assert_eq!(c.download_options.max_file_size, Some(104857600));
    assert_eq!(c.download_options.save_path, "./D");
}

#[test]
fn client_builder_keeps_credentials() {
    let creds = Credentials::new("a", "b");
    let mut b = AuthenticatedClientBuilder::new();
    assert!(b.credentials().is_none());
    b.authenticate(&creds);
    assert_eq!(b.credentials().unwrap().username, "a");
}

#[test]
fn page_addresses() {
    assert_eq!(CoursesParser::new().html_url(), "https://cms.giu-uni.de/apps/student/HomePageStn.aspx");
    let c = Course {
        title: String::new(),
        season: String::new(),
        code: String::new(),
        is_active: true,
        course_id: 34,
        season_id: 61,
    };
    assert_eq!(c.html_url(), "https://cms.giu-uni.de/apps/student/CourseViewStn.aspx?id=34&sid=61");
    let n = Course { course_id: -3, season_id: 0, ..c };
    assert_eq!(n.html_url(), "https://cms.giu-uni.de/apps/student/CourseViewStn.aspx?id=-3&sid=0");
}

#[test]
fn config_from_arguments_checks_the_password() {
    assert_eq!(
        Config::from_arguments("u", "short", "./D".to_string()).err(),
        Some("Password must be longer than 8 characters long.")
    );
    assert!(Config::from_arguments("u", "12345678", "./D".to_string()).is_ok());
}
