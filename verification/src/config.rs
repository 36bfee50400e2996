//! The configuration: credentials, general options and download options.
use vstd::prelude::*;

verus! {

broadcast use vstd::string::group_string_axioms;

/// How many transfers run at a time when the configuration does not say.
pub const DEFAULT_MAX_CONCURRENCY: usize = 3;

/// The shortest password accepted, in characters.
pub const MIN_PASSWORD_LEN: usize = 8;

/// What a too short password is answered.
pub const PASSWORD_TOO_SHORT: &'static str = "Password must be longer than 8 characters long.";

/// What an unusable download path is answered.
pub const INVALID_PATH: &'static str = "Invalid path";

/// The account that the CMS is accessed with.
#[derive(Debug, Clone)]
pub struct Credentials {
    pub username: String,
    pub password: String,
}

impl Credentials {
    /// Credentials holding these texts.
    pub fn new(username: &str, password: &str) -> (c: Self)
        ensures
            c.username@ == username@,
            c.password@ == password@,
    {
        Credentials { username: String::from_str(username), password: String::from_str(password) }
    }

    /// Checks a password as it is typed in: it needs at least 8 characters.
    pub fn validate_password(input: &str) -> (r: Result<(), &'static str>)
        ensures
            r is Ok <==> input@.len() >= MIN_PASSWORD_LEN,
            r matches Err(m) ==> m@ == PASSWORD_TOO_SHORT@,
    {
        if input.unicode_len() >= MIN_PASSWORD_LEN {
            Ok(())
        } else {
            Err(PASSWORD_TOO_SHORT)
        }
    }
}

/// How downloads are made.
#[derive(Debug, Clone)]
pub struct DownloadOptions {
    /// How many transfers run at a time; 3 when not set.
    pub max_concurrency: Option<usize>,
    /// The largest file fetched, in bytes; no limit when not set.
    pub max_file_size: Option<usize>,
    /// Where everything is stored.
    pub save_path: String,
}

impl DownloadOptions {
    /// How many transfers run at a time.
    pub fn concurrency(&self) -> (r: usize)
        ensures
            r == match self.max_concurrency {
                Some(n) => n,
                None => DEFAULT_MAX_CONCURRENCY,
            },
    {
        match self.max_concurrency {
            Some(n) => n,
            None => DEFAULT_MAX_CONCURRENCY,
        }
    }
}

/// Options of the program's behaviour.
#[derive(Debug, Clone)]
pub struct GeneralOptions {
    /// Whether the user picks the courses to download.
    pub interactive_filtering: bool,
}

impl Default for GeneralOptions {
    fn default() -> (r: Self)
        ensures
            !r.interactive_filtering,
    {
        GeneralOptions { interactive_filtering: false }
    }
}

/// The whole configuration.
#[derive(Debug, Clone)]
pub struct Config {
    pub general_options: GeneralOptions,
    pub credentials: Credentials,
    pub download_options: DownloadOptions,
}

impl Config {
    /// The configuration given on the command line: these credentials and
    /// this download path, the default options otherwise. The password is
    /// checked as in interactive setup: one under 8 characters is refused
    /// with `PASSWORD_TOO_SHORT`.
    pub fn from_arguments(username: &str, password: &str, save_path: String) -> (r: Result<Self, &'static str>)
        ensures
            r is Err <==> password@.len() < MIN_PASSWORD_LEN,
            r matches Err(m) ==> m@ == PASSWORD_TOO_SHORT@,
            r matches Ok(c) ==> {
                &&& c.credentials.username@ == username@
                &&& c.credentials.password@ == password@
                &&& !c.general_options.interactive_filtering
                &&& c.download_options.max_concurrency is None
                &&& c.download_options.max_file_size is None
                &&& c.download_options.save_path == save_path
            },
    {
        match Credentials::validate_password(password) {
            Err(m) => Err(m),
            Ok(()) => Ok(
                Config {
                    credentials: Credentials::new(username, password),
                    general_options: GeneralOptions::default(),
                    download_options: DownloadOptions { max_concurrency: None, max_file_size: None, save_path },
                },
            ),
        }
    }

    /// Replaces the credentials; the rest stays. The caller saves the result.
    pub fn update_credentials(&mut self, username: String, password: String)
        ensures
            final(self).credentials.username == username,
            final(self).credentials.password == password,
            final(self).general_options == old(self).general_options,
            final(self).download_options == old(self).download_options,
    {
        self.credentials = Credentials { username, password };
    }
}

} // verus!
