//! The configuration of the desktop application: where it keeps its
//! database, templates and session.

use vstd::prelude::*;
use vstd::string::*;
use crate::html_text::{join_resource_path, resource_path};
use crate::ports::PictureDefinition;

verus! {

/// Paths and choices of the desktop application.
#[derive(Debug, Clone)]
pub struct Config {
    pub db_path: String,
    pub templates_path: String,
    pub session_path: String,
    pub download_pictures: bool,
    pub picture_definition: PictureDefinition,
}

/// The folder of the application inside `dir`, which is the empty path
/// when the system has none.
pub open spec fn app_dir(dir: Option<Seq<char>>, sep: char) -> Seq<char> {
    resource_path(
        match dir {
            Some(d) => d,
            None => Seq::empty(),
        },
        sep,
        "weiback"@,
    )
}

/// The default configuration for the system folders `config_dir` and
/// `data_dir`, whose paths use the separator `sep`.
pub open spec fn default_app_config(
    c: Config,
    config_dir: Option<Seq<char>>,
    data_dir: Option<Seq<char>>,
    sep: char,
) -> bool {
    &&& c.db_path@ == resource_path(app_dir(config_dir, sep), sep, "weiback.db"@)
    &&& c.templates_path@ == resource_path(app_dir(data_dir, sep), sep, "templates"@)
    &&& c.session_path@ == resource_path(app_dir(config_dir, sep), sep, "session.json"@)
    &&& c.download_pictures
    &&& c.picture_definition == PictureDefinition::Largest
}

/// The path of `dir`, empty when there is none.
fn dir_or_empty(dir: &Option<String>) -> (res: &str)
    ensures
        res@ == match dir {
            Some(d) => d@,
            None => Seq::<char>::empty(),
        },
{
    match dir {
        Some(d) => d.as_str(),
        None => {
            proof {
                reveal_strlit("");
            }
            ""
        },
    }
}

impl Config {
    /// The default configuration: the database and the session in the
    /// application's folder of `config_dir`, the templates in that of
    /// `data_dir`, pictures downloaded in the largest size.
    pub fn with_dirs(config_dir: Option<String>, data_dir: Option<String>, sep: char) -> (res:
        Self)
        ensures
            default_app_config(
                res,
                match config_dir {
                    Some(d) => Some(d@),
                    None => None,
                },
                match data_dir {
                    Some(d) => Some(d@),
                    None => None,
                },
                sep,
            ),
    {
        let config_app = join_resource_path(dir_or_empty(&config_dir), sep, "weiback");
        let data_app = join_resource_path(dir_or_empty(&data_dir), sep, "weiback");
        Config {
            db_path: join_resource_path(config_app.as_str(), sep, "weiback.db"),
            templates_path: join_resource_path(data_app.as_str(), sep, "templates"),
            session_path: join_resource_path(config_app.as_str(), sep, "session.json"),
            download_pictures: true,
            picture_definition: PictureDefinition::default(),
        }
    }
}

} // verus!
