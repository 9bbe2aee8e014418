//! The state of the main window once logged in: the totals it shows, the
//! ranges the user picked, and how task reports change them.

use vstd::prelude::*;
use vstd::string::*;
use crate::login::all_digits;
use crate::strings::{char_vec, decimal, push_decimal};
use crate::upgrade::{digits_value, is_digit};

verus! {

/// Which tab of the main window is open.
#[derive(Debug, Clone, Copy, PartialEq, Eq)]
pub enum TabType {
    DownloadPosts,
    ExportFromLocal,
    About,
}

/// What the main window shows and what the user picked in it.
#[derive(Debug, Clone)]
pub struct PanelState {
    pub task_ongoing: bool,
    pub web_total: u32,
    pub db_total: u32,
    pub web_start: u32,
    pub web_end: u32,
    pub db_start: u32,
    pub db_end: u32,
    pub message: String,
    pub tab_type: TabType,
    pub with_pic: bool,
    pub reverse: bool,
    pub image_definition: u8,
    pub period: u32,
}

/// A report of the task runner. The progress ratio of a report in progress
/// is shown by the window itself and is not part of this state.
#[derive(Debug, Clone)]
pub enum StatusEvent {
    /// Favorites on the account and in the local database.
    Init(u32, u32),
    /// A task goes on; what it says.
    InProgress(String),
    /// A task finished; favorites left on the account and in the database.
    Finished(u32, u32),
    /// A task failed; why.
    Error(String),
}

/// The text that shows the totals.
pub open spec fn totals_message(web: u32, db: u32) -> Seq<char> {
    "账号共 "@ + decimal(web as nat) + " 条收藏\n本地保存有 "@ + decimal(db as nat) + " 条收藏"@
}

/// The text that shows the totals after a task.
pub open spec fn finished_message(web: u32, db: u32) -> Seq<char> {
    "任务完成!\n账号剩 "@ + decimal(web as nat) + " 条收藏\n本地保存有 "@ + decimal(db as nat)
        + " 条收藏"@
}

/// The window before any report: ranges start at the first post, pictures
/// are downloaded in the highest definition, newest first, 50 posts a page.
pub open spec fn initial_panel(p: PanelState) -> bool {
    &&& !p.task_ongoing
    &&& p.web_total == 0 && p.db_total == 0
    &&& p.web_start == 1 && p.web_end == 0
    &&& p.db_start == 1 && p.db_end == 0
    &&& p.message@ == Seq::<char>::empty()
    &&& p.tab_type == TabType::DownloadPosts
    &&& p.with_pic && p.reverse
    &&& p.image_definition == 2
    &&& p.period == 50
}

/// What a report changes.
pub open spec fn spec_apply_status(p: PanelState, ev: StatusEvent, q: PanelState) -> bool {
    match ev {
        StatusEvent::Init(w, d) => {
            &&& q == PanelState {
                web_total: w,
                db_total: d,
                db_end: if p.db_end == 0 {
                    d
                } else {
                    p.db_end
                },
                web_end: if p.web_end == 0 {
                    w
                } else {
                    p.web_end
                },
                message: q.message,
                ..p
            }
            &&& q.message@ == totals_message(w, d)
        },
        StatusEvent::InProgress(m) => q == PanelState { message: m, ..p },
        StatusEvent::Finished(w, d) => {
            &&& q == PanelState {
                task_ongoing: false,
                web_total: w,
                db_total: d,
                message: q.message,
                ..p
            }
            &&& q.message@ == finished_message(w, d)
        },
        StatusEvent::Error(m) => q == PanelState { message: m, ..p },
    }
}

/// The text that shows the totals.
fn totals_text(web: u32, db: u32) -> (res: String)
    ensures
        res@ == totals_message(web, db),
{
    let mut res = String::from_str("账号共 ");
    push_decimal(&mut res, web as u64);
    res.append(" 条收藏\n本地保存有 ");
    push_decimal(&mut res, db as u64);
    res.append(" 条收藏");
    res
}

/// The text that shows the totals after a task.
fn finished_text(web: u32, db: u32) -> (res: String)
    ensures
        res@ == finished_message(web, db),
{
    let mut res = String::from_str("任务完成!\n账号剩 ");
    push_decimal(&mut res, web as u64);
    res.append(" 条收藏\n本地保存有 ");
    push_decimal(&mut res, db as u64);
    res.append(" 条收藏");
    res
}

/// What the user asked to start.
#[derive(Debug, Clone, Copy, PartialEq, Eq)]
pub enum StartRequest {
    /// Download the favorites `start..=end`, with pictures or not, in a
    /// definition.
    DownloadPosts { start: u32, end: u32, with_pic: bool, image_definition: u8 },
    /// Export the local favorites `start..=end`, newest first or not, in a
    /// definition.
    ExportFromLocal { start: u32, end: u32, reverse: bool, image_definition: u8 },
}

/// A status the window reads from the task runner. The progress ratio of a
/// status in progress is drawn by the window itself and is not part of
/// this state.
#[derive(Debug, Clone)]
pub enum TaskStatus {
    /// A task goes on; what it says.
    InProgress(String),
    /// A task finished.
    Finished,
    /// A task failed; why.
    Error(String),
    /// Something to tell the user.
    Info(String),
}

impl PanelState {
    /// Takes a status the window read: its text becomes the message, and a
    /// finished task frees the panel.
    pub fn apply_task_status(&mut self, st: TaskStatus)
        ensures
            match st {
                TaskStatus::InProgress(m) => *final(self) == PanelState { message: m, ..*old(self) },
                TaskStatus::Error(m) => *final(self) == PanelState { message: m, ..*old(self) },
                TaskStatus::Info(m) => *final(self) == PanelState { message: m, ..*old(self) },
                TaskStatus::Finished => *final(self) == PanelState {
                    task_ongoing: false,
                    ..*old(self)
                },
            },
    {
        match st {
            TaskStatus::InProgress(m) => {
                self.message = m;
            },
            TaskStatus::Finished => {
                self.task_ongoing = false;
            },
            TaskStatus::Error(m) => {
                self.message = m;
            },
            TaskStatus::Info(m) => {
                self.message = m;
            },
        }
    }

    /// The window before any report.
    pub fn new() -> (res: Self)
        ensures
            initial_panel(res),
    {
        PanelState {
            task_ongoing: false,
            web_total: 0,
            db_total: 0,
            web_start: 1,
            web_end: 0,
            db_start: 1,
            db_end: 0,
            message: String::new(),
            tab_type: TabType::DownloadPosts,
            with_pic: true,
            reverse: true,
            image_definition: 2,
            period: 50,
        }
    }

    /// Takes in a report of the task runner: the totals and their message,
    /// the ends of the ranges when still unset, or the message of a task
    /// that goes on or failed.
    pub fn apply_status(&mut self, ev: StatusEvent)
        ensures
            spec_apply_status(*old(self), ev, *final(self)),
    {
        match ev {
            StatusEvent::Init(w, d) => {
                self.web_total = w;
                self.db_total = d;
                if self.db_end == 0 {
                    self.db_end = self.db_total;
                }
                if self.web_end == 0 {
                    self.web_end = self.web_total;
                }
                self.message = totals_text(w, d);
            },
            StatusEvent::InProgress(m) => {
                self.message = m;
            },
            StatusEvent::Finished(w, d) => {
                self.task_ongoing = false;
                self.web_total = w;
                self.db_total = d;
                self.message = finished_text(w, d);
            },
            StatusEvent::Error(m) => {
                self.message = m;
            },
        }
    }

    /// The largest end the download range can be set to: the account's
    /// favorites rounded up to whole pages of 20.
    pub fn download_range_limit(&self) -> (res: u32)
        requires
            self.web_total + 19 <= u32::MAX,
        ensures
            res == (self.web_total + 19) / 20 * 20,
    {
        (self.web_total + 19) / 20 * 20
    }

    /// What the start button asks for on the open tab, and marks a task as
    /// going on; nothing on the about tab. An export covers the single
    /// post its range starts at.
    pub fn start(&mut self) -> (res: Option<StartRequest>)
        ensures
            final(self).task_ongoing,
            *final(self) == (PanelState { task_ongoing: true, ..*old(self) }),
            res == match old(self).tab_type {
                TabType::DownloadPosts => Some(
                    StartRequest::DownloadPosts {
                        start: old(self).web_start,
                        end: old(self).web_end,
                        with_pic: old(self).with_pic,
                        image_definition: old(self).image_definition,
                    },
                ),
                TabType::ExportFromLocal => Some(
                    StartRequest::ExportFromLocal {
                        start: old(self).db_start,
                        end: old(self).db_start,
                        reverse: old(self).reverse,
                        image_definition: old(self).image_definition,
                    },
                ),
                TabType::About => None,
            },
    {
        self.task_ongoing = true;
        match self.tab_type {
            TabType::DownloadPosts => Some(
                StartRequest::DownloadPosts {
                    start: self.web_start,
                    end: self.web_end,
                    with_pic: self.with_pic,
                    image_definition: self.image_definition,
                },
            ),
            TabType::ExportFromLocal => Some(
                StartRequest::ExportFromLocal {
                    start: self.db_start,
                    end: self.db_start,
                    reverse: self.reverse,
                    image_definition: self.image_definition,
                },
            ),
            TabType::About => None,
        }
    }
}


/// What `str::parse::<u32>` reads from `s`: an optional `+`, then one or
/// more ASCII digits, whose value fits a `u32`.
pub open spec fn spec_parse_u32(s: Seq<char>) -> Option<u32> {
    let ds = if s.len() > 0 && s[0] == '+' {
        s.drop_first()
    } else {
        s
    };
    if ds.len() == 0 || !all_digits(ds) || digits_value(ds) > u32::MAX {
        None
    } else {
        Some(digits_value(ds) as u32)
    }
}

/// Reads a decimal `u32`, as `str::parse::<u32>` does.
pub fn parse_u32(s: &str) -> (res: Option<u32>)
    ensures
        res == spec_parse_u32(s@),
{
    let cs = char_vec(s);
    let n = cs.len();
    let start: usize = if n > 0 && cs[0] == '+' {
        1
    } else {
        0
    };
    let ghost ds = if s@.len() > 0 && s@[0] == '+' {
        s@.drop_first()
    } else {
        s@
    };
    assert(ds =~= cs@.subrange(start as int, n as int));
    if start == n {
        return None;
    }
    let mut j: usize = start;
    let mut acc: u64 = 0;
    let mut too_big = false;
    while j < n
        invariant
            n == cs@.len(),
            cs@ == s@,
            start <= j <= n,
            ds == cs@.subrange(start as int, n as int),
            ds == (if s@.len() > 0 && s@[0] == '+' {
                s@.drop_first()
            } else {
                s@
            }),
            forall|k: int| start <= k < j ==> is_digit(cs@[k]),
            !too_big ==> acc == digits_value(cs@.subrange(start as int, j as int)) && acc
                <= u32::MAX,
            too_big ==> digits_value(cs@.subrange(start as int, j as int)) > u32::MAX,
        decreases n - j,
    {
        let c = cs[j];
        if !('0' <= c && c <= '9') {
            proof {
                let k = j - start;
                assert(ds[k as int] == c);
                assert(!all_digits(ds));
            }
            return None;
        }
        let ghost before = cs@.subrange(start as int, j as int);
        let d = (c as u32 - '0' as u32) as u64;
        proof {
            let after = cs@.subrange(start as int, j + 1);
            assert(after.drop_last() =~= before);
            assert(after.last() == c);
        }
        if !too_big {
            let next = acc * 10 + d;
            if next > 4294967295u64 {
                too_big = true;
            } else {
                acc = next;
            }
        }
        j = j + 1;
    }
    assert(cs@.subrange(start as int, j as int) =~= ds);
    assert(all_digits(ds)) by {
        assert forall|i: int| 0 <= i < ds.len() implies is_digit(ds[i]) by {
            assert(ds[i] == cs@[start + i]);
        }
    }
    if too_big {
        None
    } else {
        Some(acc as u32)
    }
}

/// The range typed in the two fields of the window: a field that does not
/// hold a number leaves the range open on its side (from 1, to the largest
/// `u32`).
pub fn range_from_text(start: &str, end: &str) -> (res: (u32, u32))
    ensures
        res.0 == match spec_parse_u32(start@) {
            Some(v) => v,
            None => 1u32,
        },
        res.1 == match spec_parse_u32(end@) {
            Some(v) => v,
            None => u32::MAX,
        },
{
    let s = match parse_u32(start) {
        Some(v) => v,
        None => 1,
    };
    let e = match parse_u32(end) {
        Some(v) => v,
        None => u32::MAX,
    };
    (s, e)
}

} // verus!
