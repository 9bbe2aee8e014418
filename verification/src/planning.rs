//! Which pages of the web API a backup fetches.

use vstd::prelude::*;
use vstd::arithmetic::div_mod::{lemma_div_is_ordered, lemma_fundamental_div_mod};

verus! {

/// `a / b` rounded up, as `u32::div_ceil` computes it.
pub open spec fn div_ceil(a: int, b: int) -> int {
    a / b + (if a % b != 0 {
        1int
    } else {
        0int
    })
}

/// The pages that hold the posts `start..=end` when a page holds `count`
/// posts, and how many there are.
pub open spec fn spec_backup_pages(start: u32, end: u32, count: u32) -> (u32, u32, u64) {
    let first = div_ceil(start as int, count as int);
    let last = div_ceil(end as int, count as int);
    (first as u32, last as u32, (last - first + 1) as u64)
}

/// The page span of a backup can be computed: pages hold posts, and the
/// last page is not before the first.
pub open spec fn backup_span_ok(start: u32, end: u32, count: u32) -> bool {
    &&& count > 0
    &&& div_ceil(start as int, count as int) <= div_ceil(end as int, count as int)
    &&& div_ceil(end as int, count as int) - div_ceil(start as int, count as int) + 1 <= u32::MAX
}

/// `a.div_ceil(b)`.
pub fn u32_div_ceil(a: u32, b: u32) -> (r: u32)
    requires
        b > 0,
    ensures
        r == div_ceil(a as int, b as int),
{
    let d = a / b;
    if a % b != 0 {
        assert(d + 1 <= u32::MAX) by (nonlinear_arith)
            requires
                d == a / b,
                b > 0,
                a % b != 0,
                a <= u32::MAX,
        {
            lemma_fundamental_div_mod(a as int, b as int);
        }
        d + 1
    } else {
        d
    }
}

/// The first and last page a backup of the posts `start..=end` fetches,
/// `count` posts a page, and the number of pages, which is the total its
/// progress counts to.
pub fn backup_pages(start: u32, end: u32, count: u32) -> (res: (u32, u32, u64))
    requires
        backup_span_ok(start, end, count),
    ensures
        res == spec_backup_pages(start, end, count),
{
    let first = u32_div_ceil(start, count);
    let last = u32_div_ceil(end, count);
    let total = (last - first + 1) as u64;
    (first, last, total)
}

/// Rounding up keeps order.
pub proof fn lemma_div_ceil_ordered(a: int, b: int, c: int)
    requires
        0 <= a <= b,
        c > 0,
    ensures
        div_ceil(a, c) <= div_ceil(b, c),
{
    lemma_div_is_ordered(a, b, c);
    if a / c == b / c {
        lemma_fundamental_div_mod(a, c);
        lemma_fundamental_div_mod(b, c);
        assert(a % c <= b % c);
    }
}

/// Every post of `start..=end` lies on one of the pages the backup fetches.
pub proof fn law_backup_pages_cover_range(start: u32, end: u32, count: u32, post: u32)
    requires
        backup_span_ok(start, end, count),
        start <= post <= end,
    ensures
        div_ceil(start as int, count as int) <= div_ceil(post as int, count as int) <= div_ceil(
            end as int,
            count as int,
        ),
{
    lemma_div_ceil_ordered(start as int, post as int, count as int);
    lemma_div_ceil_ordered(post as int, end as int, count as int);
}

/// The pages of favorites, 20 posts a page, that the posts
/// `start..=end` are fetched from: from the page after `start / 20` to
/// `end / 20`.
pub fn fav_page_range(start: u32, end: u32) -> (res: (u32, u32))
    requires
        start != 0,
    ensures
        res == ((start / 20 + 1) as u32, end / 20),
{
    (start / 20 + 1, end / 20)
}

} // verus!

verus! {

/// A backup under way: the next page to fetch, the last page, and whether
/// all pages are fetched.
#[derive(Debug, Clone, Copy, PartialEq, Eq)]
pub struct BackupRun {
    pub next_page: u32,
    pub last_page: u32,
    pub finished: bool,
}

/// What a backup does next.
#[derive(Debug, Clone, Copy, PartialEq, Eq)]
pub enum BackupAction {
    /// Fetch this page.
    Fetch(u32),
    /// Stop: every page was fetched.
    Done,
}

/// The run after its next page was fetched: on to the page after it, or
/// finished after the last.
pub open spec fn spec_after_page(r: BackupRun) -> BackupRun {
    if r.next_page >= r.last_page {
        BackupRun { finished: true, ..r }
    } else {
        BackupRun { next_page: (r.next_page + 1) as u32, ..r }
    }
}

/// The run after `k` pages were fetched.
pub open spec fn run_after(r: BackupRun, k: nat) -> BackupRun
    decreases k,
{
    if k == 0 {
        r
    } else {
        spec_after_page(run_after(r, (k - 1) as nat))
    }
}

impl BackupRun {
    /// A backup of the posts `start..=end`, `count` posts a page: it fetches
    /// from the page of `start` to the page of `end`; the number of pages
    /// is the total its progress counts to.
    pub fn start(start: u32, end: u32, count: u32) -> (res: (BackupRun, u64))
        requires
            backup_span_ok(start, end, count),
        ensures
            res.0 == (BackupRun {
                next_page: spec_backup_pages(start, end, count).0,
                last_page: spec_backup_pages(start, end, count).1,
                finished: false,
            }),
            res.1 == spec_backup_pages(start, end, count).2,
    {
        let (first, last, total) = backup_pages(start, end, count);
        (BackupRun { next_page: first, last_page: last, finished: false }, total)
    }

    /// What the backup does next.
    pub fn action(&self) -> (res: BackupAction)
        ensures
            res == (if self.finished {
                BackupAction::Done
            } else {
                BackupAction::Fetch(self.next_page)
            }),
    {
        if self.finished {
            BackupAction::Done
        } else {
            BackupAction::Fetch(self.next_page)
        }
    }

    /// Records that the next page was fetched, which counts one page of
    /// progress; says whether to wait before the next page, which is so
    /// unless that was the last.
    pub fn page_done(&mut self) -> (wait: bool)
        requires
            !old(self).finished,
        ensures
            *final(self) == spec_after_page(*old(self)),
            wait == (old(self).next_page < old(self).last_page),
    {
        if self.next_page >= self.last_page {
            self.finished = true;
            false
        } else {
            self.next_page = self.next_page + 1;
            true
        }
    }
}

/// A backup started on the pages `first..=last` fetches them in order, each
/// once: after `k` pages it is at page `first + k`, until after the last it
/// is finished.
pub proof fn law_backup_run_pages(first: u32, last: u32, k: nat)
    requires
        first <= last,
        k <= last - first + 1,
    ensures
        k <= last - first ==> run_after(
            BackupRun { next_page: first, last_page: last, finished: false },
            k,
        ) == (BackupRun { next_page: (first + k) as u32, last_page: last, finished: false }),
        k == last - first + 1 ==> run_after(
            BackupRun { next_page: first, last_page: last, finished: false },
            k,
        ).finished,
    decreases k,
{
    if k > 0 {
        law_backup_run_pages(first, last, (k - 1) as nat);
    }
}

} // verus!

verus! {

/// What a backup runner does and reports, in order.
#[derive(Debug, Clone, Copy, PartialEq, Eq)]
pub enum BackupEvent {
    /// Reports the number of pages as the total of the task.
    Total(u64),
    /// Fetches a page.
    Fetch(u32),
    /// Reports one page of progress.
    Progress,
    /// Waits before the next page.
    Wait,
    /// Stops with the error of the page just fetched.
    Fail,
}

/// What the runner does from `r` on when the fetches of the pages succeed as
/// `outcomes` says, one outcome a page: it fetches the next page; on success
/// it reports progress and, unless that was the last page, waits and goes
/// on; on failure it stops.
pub open spec fn backup_events(r: BackupRun, outcomes: Seq<bool>) -> Seq<BackupEvent>
    decreases outcomes.len(),
{
    if r.finished || outcomes.len() == 0 {
        Seq::empty()
    } else if !outcomes[0] {
        seq![BackupEvent::Fetch(r.next_page), BackupEvent::Fail]
    } else {
        seq![BackupEvent::Fetch(r.next_page), BackupEvent::Progress] + (if r.next_page
            < r.last_page {
            seq![BackupEvent::Wait]
        } else {
            Seq::empty()
        }) + backup_events(spec_after_page(r), outcomes.drop_first())
    }
}

/// What a backup of the posts `start..=end`, `count` posts a page, does and
/// reports: the number of pages first, then the pages.
pub open spec fn backup_log(start: u32, end: u32, count: u32, outcomes: Seq<bool>) -> Seq<
    BackupEvent,
> {
    let (first, last, total) = spec_backup_pages(start, end, count);
    seq![BackupEvent::Total(total)] + backup_events(
        BackupRun { next_page: first, last_page: last, finished: false },
        outcomes,
    )
}

/// The pages that `ev` fetches, in order.
pub open spec fn fetched_pages(ev: Seq<BackupEvent>) -> Seq<u32>
    decreases ev.len(),
{
    if ev.len() == 0 {
        Seq::empty()
    } else {
        (match ev[0] {
            BackupEvent::Fetch(p) => seq![p],
            _ => Seq::empty(),
        }) + fetched_pages(ev.drop_first())
    }
}

/// How many pages of progress `ev` reports.
pub open spec fn progress_count(ev: Seq<BackupEvent>) -> nat
    decreases ev.len(),
{
    if ev.len() == 0 {
        0
    } else {
        (if ev[0] == BackupEvent::Progress {
            1nat
        } else {
            0nat
        }) + progress_count(ev.drop_first())
    }
}

/// How many of `outcomes` succeed before the first failure.
pub open spec fn ok_prefix(outcomes: Seq<bool>) -> nat
    decreases outcomes.len(),
{
    if outcomes.len() == 0 || !outcomes[0] {
        0
    } else {
        1 + ok_prefix(outcomes.drop_first())
    }
}

proof fn lemma_fetched_single(e: BackupEvent)
    ensures
        fetched_pages(seq![e]) == (match e {
            BackupEvent::Fetch(p) => seq![p],
            _ => Seq::<u32>::empty(),
        }),
        progress_count(seq![e]) == (if e == BackupEvent::Progress {
            1nat
        } else {
            0nat
        }),
{
    let s = seq![e];
    assert(s.drop_first() =~= Seq::<BackupEvent>::empty());
    assert(fetched_pages(Seq::<BackupEvent>::empty()) == Seq::<u32>::empty());
    assert(progress_count(Seq::<BackupEvent>::empty()) == 0);
    assert(s[0] == e);
    assert(progress_count(s) == (if s[0] == BackupEvent::Progress {
        1nat
    } else {
        0nat
    }) + progress_count(s.drop_first()));
    let h = match e {
        BackupEvent::Fetch(p) => seq![p],
        _ => Seq::<u32>::empty(),
    };
    assert(h + Seq::<u32>::empty() =~= h);
}

/// Rounding up a division by a positive number gives no more than the
/// number divided.
proof fn lemma_div_ceil_le(a: int, c: int)
    requires
        0 <= a,
        c > 0,
    ensures
        0 <= div_ceil(a, c) <= a || (a == 0 && div_ceil(a, c) == 0),
        div_ceil(a, c) >= 0,
{
    lemma_fundamental_div_mod(a, c);
    if c == 1 {
        assert(a / 1 == a) by (nonlinear_arith);
        assert(a % 1 == 0) by (nonlinear_arith);
    } else {
        assert(a / c <= a) by (nonlinear_arith)
            requires
                0 <= a,
                c > 1,
        ;
        if a % c != 0 {
            assert(a / c < a) by (nonlinear_arith)
                requires
                    0 < a,
                    c > 1,
                    a == c * (a / c) + a % c,
                    0 < a % c,
            ;
        }
    }
}

proof fn lemma_fetched_concat(a: Seq<BackupEvent>, b: Seq<BackupEvent>)
    ensures
        fetched_pages(a + b) == fetched_pages(a) + fetched_pages(b),
        progress_count(a + b) == progress_count(a) + progress_count(b),
    decreases a.len(),
{
    if a.len() == 0 {
        assert(a + b =~= b);
        assert(fetched_pages(a) + fetched_pages(b) =~= fetched_pages(b));
    } else {
        assert((a + b).drop_first() =~= a.drop_first() + b);
        assert((a + b)[0] == a[0]);
        lemma_fetched_concat(a.drop_first(), b);
        let h = match a[0] {
            BackupEvent::Fetch(p) => seq![p],
            _ => Seq::<u32>::empty(),
        };
        assert(h + (fetched_pages(a.drop_first()) + fetched_pages(b)) =~= (h + fetched_pages(
            a.drop_first(),
        )) + fetched_pages(b));
    }
}

/// The events of a run from page `p` on, when each of its pages has an
/// outcome: it fetches `p`, `p + 1`, ... in order, each once, up to the
/// first failed page or the last page; it reports one page of progress for
/// each page fetched before the first failure; and it ends with a stop
/// exactly when a page failed.
proof fn lemma_backup_events(p: u32, last: u32, outcomes: Seq<bool>)
    requires
        p <= last,
        outcomes.len() == last - p + 1,
    ensures
        ({
            let ev = backup_events(BackupRun { next_page: p, last_page: last, finished: false }, outcomes);
            let k = if ok_prefix(outcomes) < outcomes.len() {
                ok_prefix(outcomes) + 1
            } else {
                outcomes.len() as nat
            };
            &&& fetched_pages(ev) == Seq::new(k, |i: int| (p + i) as u32)
            &&& progress_count(ev) == ok_prefix(outcomes)
            &&& ok_prefix(outcomes) <= outcomes.len()
            &&& (ev.len() > 0 && ev.last() == BackupEvent::Fail) == (ok_prefix(outcomes)
                < outcomes.len())
        }),
    decreases outcomes.len(),
{
    let r = BackupRun { next_page: p, last_page: last, finished: false };
    let ev = backup_events(r, outcomes);
    if !outcomes[0] {
        let e = seq![BackupEvent::Fetch(p), BackupEvent::Fail];
        assert(e =~= seq![BackupEvent::Fetch(p)] + seq![BackupEvent::Fail]);
        lemma_fetched_single(BackupEvent::Fetch(p));
        lemma_fetched_single(BackupEvent::Fail);
        lemma_fetched_concat(seq![BackupEvent::Fetch(p)], seq![BackupEvent::Fail]);
        assert(fetched_pages(e) =~= Seq::new(1, |i: int| (p + i) as u32));
    } else {
        let head = seq![BackupEvent::Fetch(p), BackupEvent::Progress];
        let w = if p < last {
            seq![BackupEvent::Wait]
        } else {
            Seq::<BackupEvent>::empty()
        };
        let rest = backup_events(spec_after_page(r), outcomes.drop_first());
        assert(ev == head + w + rest);
        lemma_fetched_concat(head, w);
        lemma_fetched_concat(head + w, rest);
        assert(head =~= seq![BackupEvent::Fetch(p)] + seq![BackupEvent::Progress]);
        lemma_fetched_single(BackupEvent::Fetch(p));
        lemma_fetched_single(BackupEvent::Progress);
        lemma_fetched_concat(seq![BackupEvent::Fetch(p)], seq![BackupEvent::Progress]);
        assert(fetched_pages(head) =~= seq![p]);
        assert(progress_count(head) == 1);
        if p < last {
            lemma_fetched_single(BackupEvent::Wait);
        }
        assert(fetched_pages(w) =~= Seq::<u32>::empty());
        assert(progress_count(w) == 0);
        if p == last {
            assert(spec_after_page(r).finished);
            assert(rest =~= Seq::<BackupEvent>::empty());
            assert(outcomes.drop_first().len() == 0);
            assert(ok_prefix(outcomes.drop_first()) == 0);
            assert(fetched_pages(ev) =~= Seq::new(1, |i: int| (p + i) as u32));
        } else {
            lemma_backup_events((p + 1) as u32, last, outcomes.drop_first());
            let o2 = outcomes.drop_first();
            let k2 = if ok_prefix(o2) < o2.len() {
                ok_prefix(o2) + 1
            } else {
                o2.len() as nat
            };
            let k = k2 + 1;
            assert(fetched_pages(ev) =~= Seq::new(k, |i: int| (p + i) as u32));
            if rest.len() > 0 {
                assert((head + w + rest).last() == rest.last());
            }
        }
    }
}

impl BackupRun {
    /// Takes the outcome of fetching the next page and says what to report:
    /// on success one page of progress, and a wait unless that was the last
    /// page; on failure the stop, after which nothing more is fetched.
    pub fn on_fetched(&mut self, ok: bool) -> (events: Vec<BackupEvent>)
        requires
            !old(self).finished,
        ensures
            ok ==> *final(self) == spec_after_page(*old(self)),
            !ok ==> *final(self) == (BackupRun { finished: true, ..*old(self) }),
            forall|rest: Seq<bool>|
                #[trigger] backup_events(*old(self), seq![ok] + rest) == seq![
                    BackupEvent::Fetch(old(self).next_page),
                ] + events@ + backup_events(*final(self), rest),
    {
        let ghost r = *self;
        let mut events: Vec<BackupEvent> = Vec::new();
        if ok {
            events.push(BackupEvent::Progress);
            let wait = self.page_done();
            if wait {
                events.push(BackupEvent::Wait);
            }
        } else {
            self.finished = true;
            events.push(BackupEvent::Fail);
        }
        assert forall|rest: Seq<bool>|
            #[trigger] backup_events(r, seq![ok] + rest) == seq![BackupEvent::Fetch(r.next_page)]
                + events@ + backup_events(*self, rest) by {
            let o = seq![ok] + rest;
            assert(o[0] == ok);
            assert(o.drop_first() =~= rest);
            if ok {
                assert(seq![BackupEvent::Fetch(r.next_page), BackupEvent::Progress] + (if r.next_page
                    < r.last_page {
                    seq![BackupEvent::Wait]
                } else {
                    Seq::empty()
                }) =~= seq![BackupEvent::Fetch(r.next_page)] + events@);
            } else {
                assert(backup_events(*self, rest) =~= Seq::<BackupEvent>::empty());
                assert(seq![BackupEvent::Fetch(r.next_page), BackupEvent::Fail] =~= seq![
                    BackupEvent::Fetch(r.next_page),
                ] + events@ + Seq::<BackupEvent>::empty());
            }
        }
        events
    }
}

/// A backup of the posts `start..=end`, `count` posts a page, whose pages
/// `s..=e` each have an outcome: it first reports `e - s + 1` pages as its
/// total; it fetches `s`, `s + 1`, ... in order, each once, up to the first
/// failed page or `e`; it reports one page of progress for each page that
/// succeeded before the first failure; and it stops with an error exactly
/// when a page failed, fetching no page after it.
pub proof fn law_backup_log(start: u32, end: u32, count: u32, outcomes: Seq<bool>)
    requires
        backup_span_ok(start, end, count),
        outcomes.len() == spec_backup_pages(start, end, count).1 - spec_backup_pages(
            start,
            end,
            count,
        ).0 + 1,
    ensures
        ({
            let (s, e, t) = spec_backup_pages(start, end, count);
            let ev = backup_log(start, end, count, outcomes);
            let k = if ok_prefix(outcomes) < outcomes.len() {
                ok_prefix(outcomes) + 1
            } else {
                outcomes.len() as nat
            };
            &&& ev[0] == BackupEvent::Total(t)
            &&& t == e - s + 1
            &&& fetched_pages(ev) == Seq::new(k, |i: int| (s + i) as u32)
            &&& progress_count(ev) == ok_prefix(outcomes)
            &&& (ev.last() == BackupEvent::Fail) == (ok_prefix(outcomes) < outcomes.len())
        }),
{
    let (s, e, t) = spec_backup_pages(start, end, count);
    let head = seq![BackupEvent::Total(t)];
    let ev0 = backup_events(BackupRun { next_page: s, last_page: e, finished: false }, outcomes);
    lemma_div_ceil_le(start as int, count as int);
    lemma_div_ceil_le(end as int, count as int);
    lemma_backup_events(s, e, outcomes);
    lemma_fetched_concat(head, ev0);
    lemma_fetched_single(BackupEvent::Total(t));
    assert(fetched_pages(head) =~= Seq::<u32>::empty());
    assert(fetched_pages(head) + fetched_pages(ev0) =~= fetched_pages(ev0));
    assert(progress_count(head) == 0);
    assert(ev0.len() > 0);
    assert((head + ev0).last() == ev0.last());
}

} // verus!
