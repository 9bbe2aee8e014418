//! The configuration of the command-line program, and the state of its
//! main window.

use vstd::prelude::*;
use vstd::string::*;

verus! {

/// The arguments of the program.
#[derive(Debug, Clone)]
pub struct Args {
    /// Location of the config file.
    pub config: Option<String>,
}

/// The account and the database the program works with.
#[derive(Debug, Clone)]
pub struct Config {
    pub web_cookie: String,
    pub mobile_cookie: String,
    pub uid: String,
    /// Path of the database file.
    pub db: String,
}

/// Where the database is kept unless the config says otherwise.
pub const DEFAULT_DB_PATH_STR: &'static str = "res/weiback.db";

/// A config with nothing set but the default database path.
pub open spec fn default_config(c: Config) -> bool {
    &&& c.web_cookie@ == Seq::<char>::empty()
    &&& c.mobile_cookie@ == Seq::<char>::empty()
    &&& c.uid@ == Seq::<char>::empty()
    &&& c.db@ == DEFAULT_DB_PATH_STR@
}

/// Every item the program needs is set.
pub open spec fn config_complete(c: Config) -> bool {
    &&& c.db@.len() > 0
    &&& c.uid@.len() > 0
    &&& c.mobile_cookie@.len() > 0
    &&& c.web_cookie@.len() > 0
}

impl Default for Config {
    fn default() -> (res: Self)
        ensures
            default_config(res),
    {
        Config {
            web_cookie: String::new(),
            mobile_cookie: String::new(),
            uid: String::new(),
            db: String::from_str(DEFAULT_DB_PATH_STR),
        }
    }
}

impl Config {
    /// The default config.
    pub fn new() -> (res: Self)
        ensures
            default_config(res),
    {
        Self::default()
    }

    /// Whether every item the program needs is set.
    pub fn is_complete(&self) -> (b: bool)
        ensures
            b == config_complete(*self),
    {
        self.db.as_str().unicode_len() > 0 && self.uid.as_str().unicode_len() > 0
            && self.mobile_cookie.as_str().unicode_len() > 0
            && self.web_cookie.as_str().unicode_len() > 0
    }
}

/// The config that was loaded, kept only when it is complete.
pub fn check_config(loaded: Option<Config>) -> (res: Option<Config>)
    ensures
        match loaded {
            Some(c) => if config_complete(c) {
                res == Some(c)
            } else {
                res is None
            },
            None => res is None,
        },
{
    match loaded {
        Some(c) => if c.is_complete() {
            Some(c)
        } else {
            None
        },
        None => None,
    }
}

/// Whether the user is logged in.
#[derive(Debug, Clone, Copy, PartialEq, Eq)]
pub enum MainState {
    Unlogined,
    Logining,
    Logged,
}

impl Default for MainState {
    fn default() -> (res: Self)
        ensures
            res == MainState::Unlogined,
    {
        MainState::Unlogined
    }
}

} // verus!
