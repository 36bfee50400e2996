//! Reading a university CMS: its course list, the contents of each course,
//! and the plan and scheduling of their downloads.
pub mod client;
pub mod config;
pub mod downloader;
pub mod fetcher;
pub mod html;
pub mod models;
pub mod parser;
pub mod text;
pub mod utils;
