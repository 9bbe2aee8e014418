//! The fields of a stored post that are derived from the post the web API
//! sends, and how its optional members are read.

use vstd::prelude::*;
use crate::created_at::{
    offset_display, parse_created_at, parse_time_text, parsed_time, time_text, MalformedTime,
    CREATED_AT_FORMAT,
};
use crate::meta_data::PostUser;
use crate::post_urls::{is_client_only, CLIENT_ONLY_NOTICE};

verus! {

/// The fields of a stored post that are worked out rather than read.
#[derive(Debug)]
pub struct DerivedFields {
    /// The author's id.
    pub uid: Option<i64>,
    /// The creation time as `chrono` displays it.
    pub created_at: String,
    /// The creation time as a Unix timestamp.
    pub created_at_timestamp: i64,
    /// The writer's time zone, as `+08:00`.
    pub created_at_tz: String,
    /// The id of the reposted post.
    pub retweeted_status: Option<i64>,
    /// Only the phone client shows the post.
    pub client_only: bool,
}

/// The text begins with the phone-client notice.
pub open spec fn begins_with_notice(text: Seq<char>) -> bool {
    CLIENT_ONLY_NOTICE@.len() <= text.len() && text.take(CLIENT_ONLY_NOTICE@.len() as int)
        == CLIENT_ONLY_NOTICE@
}

/// Works out the derived fields of a post whose author has id `user_id`
/// (none when the author is hidden), written at `created_at`, reposting the
/// post `retweet_id`, with text `text_raw`; fails when the creation time
/// cannot be read.
pub fn derive_post_fields(
    user_id: Option<i64>,
    created_at: &str,
    retweet_id: Option<i64>,
    text_raw: &str,
) -> (res: Result<DerivedFields, MalformedTime>)
    ensures
        match res {
            Ok(f) => {
                &&& parsed_time(created_at@, CREATED_AT_FORMAT@) matches Some((ts, off))
                &&& f.created_at_timestamp == ts
                &&& f.created_at@ == time_text(created_at@, CREATED_AT_FORMAT@)
                &&& f.created_at_tz@ == offset_display(off as int)
                &&& f.uid == user_id
                &&& f.retweeted_status == retweet_id
                &&& f.client_only == (user_id is None && begins_with_notice(text_raw@))
            },
            Err(_) => parsed_time(created_at@, CREATED_AT_FORMAT@) is None,
        },
{
    let t = match parse_created_at(created_at) {
        Ok(t) => t,
        Err(e) => {
            return Err(e);
        },
    };
    let tz = t.timezone_text();
    let text = match parse_time_text(created_at, CREATED_AT_FORMAT) {
        Some(text) => text,
        None => {
            return Err(MalformedTime);
        },
    };
    let client_only = is_client_only(user_id.is_some(), text_raw);
    Ok(DerivedFields {
        uid: user_id,
        created_at: text,
        created_at_timestamp: t.timestamp,
        created_at_tz: tz,
        retweeted_status: retweet_id,
        client_only,
    })
}

/// The author of a post as it is stored: an author with id 0 is no author.
pub fn user_if_known(user: Option<PostUser>) -> (res: Option<PostUser>)
    ensures
        res == (match user {
            Some(u) => if u.id == 0 {
                None
            } else {
                Some(u)
            },
            None => None,
        }),
{
    match user {
        Some(u) => {
            if u.id == 0 {
                None
            } else {
                Some(u)
            }
        },
        None => None,
    }
}

/// A flag the API gives as a string that is present when the flag is off:
/// `null` reads as set, any string as not set.
pub fn null_means_set(s: Option<String>) -> (res: bool)
    ensures
        res == (s is None),
{
    s.is_none()
}

/// A number the API may give as `null`: `null` reads as 0.
pub fn null_as_zero(n: Option<i64>) -> (res: i64)
    ensures
        res == (match n {
            Some(v) => v,
            None => 0,
        }),
{
    match n {
        Some(v) => v,
        None => 0,
    }
}

} // verus!
