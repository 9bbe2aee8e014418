//! Decisions inside the loops of the task runner: how a long export is cut
//! into pages, what its progress message says, when a failed HTTP request
//! is tried again, and which text a long post keeps.

use vstd::prelude::*;
use vstd::string::*;
use crate::strings::{decimal, push_decimal};

verus! {

/// How many posts an exported page takes at most.
pub const SAVING_PERIOD: usize = 200;

/// The next page of an export that has `remaining` posts left: the page
/// takes the posts from the returned position on and the rest stay; the
/// flag says whether this is the last page. Fewer than `SAVING_PERIOD`
/// posts make the last page; otherwise the page takes what lies past the
/// first `SAVING_PERIOD`, which stay.
pub fn export_step(remaining: usize) -> (res: (usize, bool))
    ensures
        remaining < SAVING_PERIOD ==> res == (0usize, true),
        remaining >= SAVING_PERIOD ==> res == (SAVING_PERIOD, false),
{
    if remaining < SAVING_PERIOD {
        (0, true)
    } else {
        (SAVING_PERIOD, false)
    }
}

/// The name of the `index`-th page of an export.
pub fn export_page_name(index: u64) -> (res: String)
    ensures
        res@ == "weiback-"@ + decimal(index as nat),
{
    let mut res = String::from_str("weiback-");
    push_decimal(&mut res, index);
    res
}

/// The progress message of an export of `posts_sum` posts of which
/// `remaining` are left.
pub fn export_progress_text(posts_sum: usize, remaining: usize) -> (res: String)
    requires
        remaining <= posts_sum,
    ensures
        res@ == "已处理"@ + decimal((posts_sum - remaining) as nat) + "条，共"@ + decimal(
            posts_sum as nat,
        ) + "条...\n可能需要下载图片"@,
{
    let mut res = String::from_str("已处理");
    push_decimal(&mut res, (posts_sum - remaining) as u64);
    res.append("条，共");
    push_decimal(&mut res, posts_sum as u64);
    res.append("条...\n可能需要下载图片");
    res
}

/// How many times an HTTP request is sent at most.
pub const RETRY_COUNT: u32 = 3;

/// What to do after an answer to an HTTP request.
#[derive(Debug, Clone, Copy, PartialEq, Eq)]
pub enum RetryAction {
    /// Hand the answer back.
    Return,
    /// Wait a second and send the request again.
    SleepThenRetry,
    /// Wait a second and give up, reporting this status.
    SleepThenFail(u16),
}

/// The state of a request being retried: how many answers came, and the
/// last client-error status among them (200 before any).
#[derive(Debug, Clone, Copy, PartialEq, Eq)]
pub struct RetryState {
    pub attempts: u32,
    pub status: u16,
}

/// A status in `200..300`.
pub open spec fn is_success(code: u16) -> bool {
    200 <= code < 300
}

/// A status in `400..500`.
pub open spec fn is_client_error(code: u16) -> bool {
    400 <= code < 500
}

impl RetryState {
    /// No answer yet.
    pub fn new() -> (res: Self)
        ensures
            res == (RetryState { attempts: 0, status: 200 }),
    {
        RetryState { attempts: 0, status: 200 }
    }

    /// Takes the status `code` of an answer: a success is handed back; a
    /// client error is remembered; after `RETRY_COUNT` answers the request
    /// fails with the remembered status, else it is sent again.
    pub fn on_status(&mut self, code: u16) -> (res: RetryAction)
        requires
            old(self).attempts < RETRY_COUNT,
        ensures
            is_success(code) ==> res == RetryAction::Return && *final(self) == *old(self),
            !is_success(code) ==> {
                &&& final(self).attempts == old(self).attempts + 1
                &&& final(self).status == (if is_client_error(code) {
                    code
                } else {
                    old(self).status
                })
                &&& res == (if final(self).attempts == RETRY_COUNT {
                    RetryAction::SleepThenFail(final(self).status)
                } else {
                    RetryAction::SleepThenRetry
                })
            },
    {
        if 200 <= code && code < 300 {
            return RetryAction::Return;
        }
        if 400 <= code && code < 500 {
            self.status = code;
        }
        self.attempts = self.attempts + 1;
        if self.attempts == RETRY_COUNT {
            RetryAction::SleepThenFail(self.status)
        } else {
            RetryAction::SleepThenRetry
        }
    }
}

/// The text a post keeps: a long post takes its fetched full text when the
/// fetch succeeded; otherwise the text stays.
pub fn text_after_long_text(text: String, is_long_text: bool, fetched: Option<String>) -> (res:
    String)
    ensures
        res@ == (match fetched {
            Some(t) => if is_long_text {
                t@
            } else {
                text@
            },
            None => text@,
        }),
{
    match fetched {
        Some(t) => {
            if is_long_text {
                t
            } else {
                text
            }
        },
        None => text,
    }
}

} // verus!
