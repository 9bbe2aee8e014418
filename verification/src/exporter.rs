//! Options of an export, the names of what it writes, and how it splits the
//! posts into pages.

use vstd::prelude::*;
use vstd::string::*;
use std::ops::RangeInclusive;
use crate::ports::PictureDefinition;
use crate::strings::{decimal, push_decimal};

verus! {

/// How posts are exported to HTML.
#[derive(Debug)]
pub struct ExportOptions {
    pub pic_quality: PictureDefinition,
    /// The folder the pages are written to.
    pub export_path: String,
    pub export_task_name: String,
    pub posts_per_html: u32,
    pub reverse: bool,
    pub range: RangeInclusive<u32>,
}

/// The options an export starts from.
pub open spec fn default_export_options(o: ExportOptions) -> bool {
    &&& o.pic_quality == PictureDefinition::Largest
    &&& o.export_path@ == "."@
    &&& o.export_task_name@ == "weiback_export.html"@
    &&& o.posts_per_html == 1000
    &&& !o.reverse
    &&& o.range@.start == 0
    &&& o.range@.end == u32::MAX
    &&& !o.range@.exhausted
}

impl Default for ExportOptions {
    fn default() -> (res: Self)
        ensures
            default_export_options(res),
    {
        ExportOptions {
            pic_quality: PictureDefinition::default(),
            export_path: String::from_str("."),
            export_task_name: String::from_str("weiback_export.html"),
            posts_per_html: 1000,
            reverse: false,
            range: RangeInclusive::new(0, u32::MAX),
        }
    }
}

impl ExportOptions {
    /// The default options: largest pictures, the current folder, the task
    /// `weiback_export.html`, 1000 posts a page, in order, every post.
    pub fn new() -> (res: Self)
        ensures
            default_export_options(res),
    {
        Self::default()
    }

    /// Pictures in size `quality`.
    pub fn pic_quality(self, quality: PictureDefinition) -> (res: Self)
        ensures
            res == (ExportOptions { pic_quality: quality, ..self }),
    {
        ExportOptions { pic_quality: quality, ..self }
    }

    /// Write into the folder `path`.
    pub fn export_path(self, path: String) -> (res: Self)
        ensures
            res == (ExportOptions { export_path: path, ..self }),
    {
        ExportOptions { export_path: path, ..self }
    }

    /// Name the export `name`.
    pub fn export_task_name(self, name: String) -> (res: Self)
        ensures
            res == (ExportOptions { export_task_name: name, ..self }),
    {
        ExportOptions { export_task_name: name, ..self }
    }

    /// Put `count` posts on a page.
    pub fn posts_per_html(self, count: u32) -> (res: Self)
        ensures
            res == (ExportOptions { posts_per_html: count, ..self }),
    {
        ExportOptions { posts_per_html: count, ..self }
    }

    /// Export the posts in `range`.
    pub fn range(self, range: RangeInclusive<u32>) -> (res: Self)
        ensures
            res == (ExportOptions { range, ..self }),
    {
        ExportOptions { range, ..self }
    }

    /// Newest first when `reverse`.
    pub fn reverse(self, reverse: bool) -> (res: Self)
        ensures
            res == (ExportOptions { reverse, ..self }),
    {
        ExportOptions { reverse, ..self }
    }
}

/// The HTML file of the export `task`.
pub fn html_file_name(task: &str) -> (res: String)
    ensures
        res@ == task@ + ".html"@,
{
    let mut res = String::from_str(task);
    res.append(".html");
    res
}

/// The folder of the pictures of the export `task`.
pub fn resources_dir_name(task: &str) -> (res: String)
    ensures
        res@ == task@ + "_files"@,
{
    let mut res = String::from_str(task);
    res.append("_files");
    res
}

/// The name of the `index`-th page of the export `task`.
pub open spec fn spec_subtask_name(task: Seq<char>, index: nat) -> Seq<char> {
    task + seq!['_'] + decimal(index)
}

/// The name of the `index`-th page of the export `task`: `task_index`.
pub fn subtask_name(task: &str, index: u64) -> (res: String)
    ensures
        res@ == spec_subtask_name(task@, index as nat),
{
    let mut res = String::from_str(task);
    res.append("_");
    push_decimal(&mut res, index);
    proof {
        reveal_strlit("_");
    }
    assert(res@ =~= spec_subtask_name(task@, index as nat));
    res
}

/// The posts a page of the export covers when it starts at `start`: up to
/// `limit` further, but not past `end`.
pub open spec fn spec_batch_end(start: u32, end: u32, limit: u32) -> u32 {
    if end <= start + limit {
        end
    } else {
        (start + limit) as u32
    }
}

/// The range of the page of the export that starts at `start`.
pub fn batch_range(start: u32, end: u32, limit: u32) -> (res: (u32, u32))
    requires
        start + limit <= u32::MAX,
    ensures
        res == (start, spec_batch_end(start, end, limit)),
{
    let sum = start + limit;
    let e = if end <= sum {
        end
    } else {
        sum
    };
    (start, e)
}

/// Where the page after the one that starts at `start` starts, or `None`
/// when that page was the last one (it reached `end`).
pub fn next_batch_start(start: u32, end: u32, limit: u32) -> (res: Option<u32>)
    requires
        start + limit <= u32::MAX,
    ensures
        res == (if start == end {
            None
        } else {
            Some(spec_batch_end(start, end, limit))
        }),
{
    if start == end {
        None
    } else {
        Some(batch_range(start, end, limit).1)
    }
}

/// Each page starts where the one before it ended, and, while the export
/// has not reached its end, a page with room for posts moves it forward
/// without passing the end.
pub proof fn law_export_pages_advance(start: u32, end: u32, limit: u32)
    requires
        start < end,
        limit > 0,
        start + limit <= u32::MAX,
    ensures
        spec_batch_end(start, end, limit) > start,
        spec_batch_end(start, end, limit) <= end,
{
}

} // verus!

verus! {

/// The pages an export of the posts `start..=end` goes through, `limit`
/// further posts a page: each page runs from its start to
/// `spec_batch_end`, the next starts where it ended, and the page that
/// starts at `end` is the last. With `limit` 0 the pages would not move;
/// the plan then stops after one.
pub open spec fn export_plan(start: u32, end: u32, limit: u32) -> Seq<(u32, u32)>
    decreases (if start < end {
        end - start + 1
    } else if start == end {
        0
    } else {
        1
    }),
{
    let e = spec_batch_end(start, end, limit);
    if start == end || (start < end && limit == 0) {
        seq![(start, e)]
    } else {
        seq![(start, e)] + export_plan(e, end, limit)
    }
}

/// The pages of an export of the posts `start..=end` of the export `task`,
/// `limit` further posts a page: the `k`-th (from 1) is named `task_k` and
/// covers `export_plan(start, end, limit)[k - 1]`.
pub fn export_pages(task: &str, start: u32, end: u32, limit: u32) -> (res: Vec<(String, u32, u32)>)
    requires
        limit > 0,
        start + limit <= u32::MAX,
        end + limit <= u32::MAX,
    ensures
        res@.len() == export_plan(start, end, limit).len(),
        forall|k: int|
            0 <= k < res@.len() ==> {
                &&& (#[trigger] res@[k]).0@ == spec_subtask_name(task@, (k + 1) as nat)
                &&& (res@[k].1, res@[k].2) == export_plan(start, end, limit)[k]
            },
{
    let ghost plan = export_plan(start, end, limit);
    proof {
        lemma_export_plan_len(start, end, limit);
    }
    let mut out: Vec<(String, u32, u32)> = Vec::new();
    let mut cur = start;
    let mut index: u64 = 1;
    loop
        invariant_except_break
            index == out@.len() + 1,
            out@.len() + export_plan(cur, end, limit).len() == plan.len(),
            forall|k: int| 0 <= k < export_plan(cur, end, limit).len() ==> #[trigger] export_plan(cur, end, limit)[k]
                == plan[out@.len() + k],
            out@.len() < plan.len(),
        invariant
            plan == export_plan(start, end, limit),
            limit > 0,
            cur + limit <= u32::MAX,
            end + limit <= u32::MAX,
            plan.len() <= 0x2_0000_0000,
            forall|k: int|
                0 <= k < out@.len() ==> {
                    &&& (#[trigger] out@[k]).0@ == spec_subtask_name(task@, (k + 1) as nat)
                    &&& (out@[k].1, out@[k].2) == plan[k]
                },
        ensures
            out@.len() == plan.len(),
            forall|k: int|
                0 <= k < out@.len() ==> {
                    &&& (#[trigger] out@[k]).0@ == spec_subtask_name(task@, (k + 1) as nat)
                    &&& (out@[k].1, out@[k].2) == plan[k]
                },
        decreases (if cur < end {
            end - cur + 1
        } else if cur == end {
            0
        } else {
            1
        }),
    {
        let (s, e) = batch_range(cur, end, limit);
        let name = subtask_name(task, index);
        let ghost rest = export_plan(cur, end, limit);
        assert(rest[0] == (s, e));
        out.push((name, s, e));
        if cur == end {
            assert(rest.len() == 1);
            break;
        }
        let ghost next_rest = export_plan(e, end, limit);
        assert(rest == seq![(s, e)] + next_rest);
        proof {
            assert forall|k: int| 0 <= k < next_rest.len() implies #[trigger] next_rest[k]
                == plan[out@.len() + k] by {
                assert(next_rest[k] == rest[k + 1]);
            }
        }
        cur = e;
        index = index + 1;
    }
    out
}

/// An export plan has no more pages than there are posts, plus one.
proof fn lemma_export_plan_len(start: u32, end: u32, limit: u32)
    ensures
        export_plan(start, end, limit).len() <= (if start < end {
            end - start + 1
        } else {
            1
        }) + 1,
    decreases (if start < end {
        end - start + 1
    } else if start == end {
        0
    } else {
        1
    }),
{
    let e = spec_batch_end(start, end, limit);
    if !(start == end || (start < end && limit == 0)) {
        lemma_export_plan_len(e, end, limit);
    }
}

/// Every page of an export plan lies within the range asked for, and the
/// last page reaches its end.
pub proof fn law_export_plan_covers(start: u32, end: u32, limit: u32)
    requires
        start <= end,
        limit > 0,
    ensures
        export_plan(start, end, limit).len() > 0,
        export_plan(start, end, limit)[0].0 == start,
        export_plan(start, end, limit).last().1 == end,
        forall|k: int|
            0 <= k < export_plan(start, end, limit).len() ==> start <= (
            #[trigger] export_plan(start, end, limit)[k]).0 <= export_plan(start, end, limit)[k].1
                <= end,
        forall|k: int|
            0 <= k < export_plan(start, end, limit).len() - 1 ==> #[trigger] export_plan(
                start,
                end,
                limit,
            )[k + 1].0 == export_plan(start, end, limit)[k].1,
    decreases end - start,
{
    let e = spec_batch_end(start, end, limit);
    if start != end {
        law_export_plan_covers(e, end, limit);
        let rest = export_plan(e, end, limit);
        let p = export_plan(start, end, limit);
        assert(p == seq![(start, e)] + rest);
        assert forall|k: int| 0 <= k < p.len() implies start <= (#[trigger] p[k]).0 <= p[k].1
            <= end by {
            if k > 0 {
                assert(p[k] == rest[k - 1]);
            }
        }
        assert forall|k: int| 0 <= k < p.len() - 1 implies #[trigger] p[k + 1].0 == p[k].1 by {
            assert(p[k + 1] == rest[k]);
            if k > 0 {
                assert(p[k] == rest[k - 1]);
                assert(rest[(k - 1) + 1].0 == rest[k - 1].1);
            } else {
                assert(rest[0].0 == e);
            }
        }
    }
}

} // verus!
