//! The verified core of a Weibo backup tool.
//!
//! It covers what the tool computes between fetching posts and storing or
//! exporting them: reading the JSON the web API returns (`json_record`,
//! `mobile`, `sql_data`, `url_struct`, `preprocess`, `post_fields`,
//! `emoticon`), the SQL it stores posts and users with
//! (`sql_text`, `meta_data`), the HTML a post's text becomes (`pattern`,
//! `html_text`, `generator`), the pictures a post shows (`picture`, `picture_meta`,
//! `post_pictures`), the login protocol (`login`), creation times
//! (`created_at`), the upgrade of old databases (`upgrade`), and the
//! options, plans and progress of tasks (`ports`, `exporter`, `planning`,
//! `message`, `panel`, `config`, `app_config`, `task_steps`).

pub mod strings;
pub mod picture;
pub mod search_args;
pub mod picture_meta;
pub mod pattern;
pub mod html_text;
pub mod sql_text;
pub mod meta_data;
pub mod json_record;
pub mod sql_data;
pub mod ports;
pub mod exporter;
pub mod planning;
pub mod message;
pub mod config;
pub mod app_config;
pub mod user;
pub mod data;
pub mod upgrade;
pub mod created_at;
pub mod login;
pub mod post_pictures;
pub mod mobile;
pub mod panel;
pub mod post_urls;
pub mod generator;
pub mod url_struct;
pub mod preprocess;
pub mod post_fields;
pub mod task_steps;
pub mod emoticon;
