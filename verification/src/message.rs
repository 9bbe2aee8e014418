//! Messages between the task runner and the user interface, and the book of
//! running tasks that progress messages update.

use vstd::prelude::*;
use std::collections::HashMap;
use std::ops::RangeInclusive;

verus! {

/// A user's name and how many posts they have.
#[derive(Debug, Clone)]
pub struct UserMeta {
    pub uid: String,
    pub name: String,
    pub posts_count: u32,
}

/// The kind of a task, as progress events name it.
#[derive(Debug, Clone, Copy, PartialEq, Eq)]
pub enum TaskType {
    BackUser,
    BackFav,
    Unfav,
}

/// Progress of the task `id`, of kind `task_type`: how much its total and
/// its done part grow.
#[derive(Debug, Clone, Copy)]
pub struct TaskProgress {
    pub task_type: TaskType,
    pub id: u64,
    pub total_increment: u64,
    pub current_increment: u64,
}

/// What the user asked for.
#[derive(Debug)]
pub enum UiAction {
    BackupUser { user_id: String, range: RangeInclusive<u32> },
    BackupFavorites { range: RangeInclusive<u32> },
    Export,
}

/// A running task: its id, its total, how much of it is done, and what was
/// asked for.
#[derive(Debug)]
pub struct Task<R> {
    pub id: u64,
    pub total: u64,
    pub progress: u64,
    pub request: R,
}

/// A task id was recorded twice.
#[derive(Debug, Clone, Copy, PartialEq, Eq)]
pub struct DuplicateTask {
    pub id: u64,
}

/// What the user interface is told of a task's progress: its kind, its
/// total and how much of it is done.
#[derive(Debug, Clone, Copy, PartialEq, Eq)]
pub struct ProgressEvent {
    pub task_type: TaskType,
    pub total: u64,
    pub progress: u64,
}

/// Every recorded task is filed under its own id.
pub open spec fn filed_by_id<R>(tasks: Map<u64, Task<R>>) -> bool {
    forall|k: u64| #[trigger] tasks.contains_key(k) ==> tasks[k].id == k
}

/// Every recorded id is below `next`: ids not yet handed out are free.
pub open spec fn ids_below<R>(tasks: Map<u64, Task<R>>, next: u64) -> bool {
    forall|k: u64| #[trigger] tasks.contains_key(k) ==> k < next
}

/// The tasks, the next id and the result after `request`, with `total` to
/// do, is recorded in `tasks` under the id `next`.
pub open spec fn spec_record<R>(
    tasks: Map<u64, Task<R>>,
    next: u64,
    request: R,
    total: u64,
) -> (Map<u64, Task<R>>, u64, Result<u64, DuplicateTask>) {
    (
        tasks.insert(next, Task { id: next, total, progress: 0, request }),
        if next == u64::MAX {
            0
        } else {
            (next + 1) as u64
        },
        if tasks.contains_key(next) {
            Err(DuplicateTask { id: next })
        } else {
            Ok(next)
        },
    )
}

/// The tasks, the next id and the results after the requests `reqs`, each
/// with its total, are recorded one after another.
pub open spec fn spec_record_all<R>(
    tasks: Map<u64, Task<R>>,
    next: u64,
    reqs: Seq<(R, u64)>,
) -> (Map<u64, Task<R>>, u64, Seq<Result<u64, DuplicateTask>>)
    decreases reqs.len(),
{
    if reqs.len() == 0 {
        (tasks, next, Seq::empty())
    } else {
        let (t, n, rs) = spec_record_all(tasks, next, reqs.drop_last());
        let (t2, n2, r) = spec_record(t, n, reqs.last().0, reqs.last().1);
        (t2, n2, rs.push(r))
    }
}

/// Recording requests one after another in a new book hands out the ids
/// 1, 2, 3, ..., each once: the `i`-th request (from 1) gets `Ok(i)`, and the
/// book then holds exactly the task `i` for each, with its request, its
/// total and nothing done.
pub proof fn law_task_ids_count_up<R>(reqs: Seq<(R, u64)>)
    requires
        reqs.len() < u64::MAX,
    ensures
        ({
            let (t, n, rs) = spec_record_all(Map::<u64, Task<R>>::empty(), 1, reqs);
            &&& n == reqs.len() + 1
            &&& rs.len() == reqs.len()
            &&& forall|i: int| 0 <= i < reqs.len() ==> #[trigger] rs[i] == Ok::<u64, DuplicateTask>(
                (i + 1) as u64,
            )
            &&& t == Map::new(
                |k: u64| 1 <= k <= reqs.len(),
                |k: u64|
                    Task {
                        id: k,
                        total: reqs[k - 1].1,
                        progress: 0,
                        request: reqs[k - 1].0,
                    },
            )
        }),
    decreases reqs.len(),
{
    if reqs.len() > 0 {
        let pre = reqs.drop_last();
        law_task_ids_count_up(pre);
        let (t, n, rs) = spec_record_all(Map::<u64, Task<R>>::empty(), 1, pre);
        let m = reqs.len();
        assert(n == m);
        assert(!t.contains_key(n));
        let (t2, n2, r) = spec_record(t, n, reqs.last().0, reqs.last().1);
        let target = Map::new(
            |k: u64| 1 <= k <= reqs.len(),
            |k: u64|
                Task {
                    id: k,
                    total: reqs[k - 1].1,
                    progress: 0,
                    request: reqs[k - 1].0,
                },
        );
        assert forall|k: u64| #[trigger] target.contains_key(k) implies t2.contains_key(k)
            && t2[k] == target[k] by {
            if k < n {
                assert(pre[k - 1] == reqs[k - 1]);
            }
        }
        assert(t2 =~= target);
        let all = rs.push(r);
        assert forall|i: int| 0 <= i < reqs.len() implies #[trigger] all[i] == Ok::<
            u64,
            DuplicateTask,
        >((i + 1) as u64) by {
            if i < pre.len() {
                assert(all[i] == rs[i]);
            }
        }
    }
}

/// The running tasks, by id, and the id the next task gets. Ids are handed
/// out from 1 up.
#[derive(Debug)]
pub struct TaskBook<R> {
    next_task_id: u64,
    tasks: HashMap<u64, Task<R>>,
}

impl<R> TaskBook<R> {
    #[verifier::type_invariant]
    closed spec fn well_filed(self) -> bool {
        filed_by_id(self.tasks@)
    }

    /// The recorded tasks, by id.
    pub closed spec fn view(&self) -> Map<u64, Task<R>> {
        self.tasks@
    }

    /// The id the next recorded task gets.
    pub closed spec fn next_id(&self) -> u64 {
        self.next_task_id
    }

    /// No task; the first id handed out is 1.
    pub fn new() -> (res: Self)
        ensures
            res@ == Map::<u64, Task<R>>::empty(),
            res.next_id() == 1,
    {
        let res = TaskBook { next_task_id: 1, tasks: HashMap::new() };
        assert(filed_by_id(res.tasks@));
        res
    }

    /// Records `request`, with `total` to do and nothing done, under the next
    /// id, and hands the id out; the next id is one more (after `u64::MAX`
    /// comes 0). Where a task already has that id it is replaced and the
    /// duplicate is reported. While every recorded id is below the next one,
    /// no duplicate can arise and that stays so, until the ids run out.
    pub fn record_task(&mut self, request: R, total: u64) -> (res: Result<u64, DuplicateTask>)
        ensures
            final(self).next_id() == (if old(self).next_id() == u64::MAX {
                0
            } else {
                old(self).next_id() + 1
            }),
            final(self)@ == old(self)@.insert(
                old(self).next_id(),
                Task { id: old(self).next_id(), total, progress: 0, request },
            ),
            match res {
                Ok(id) => id == old(self).next_id() && !old(self)@.contains_key(id),
                Err(d) => d.id == old(self).next_id() && old(self)@.contains_key(d.id),
            },
            ids_below(old(self)@, old(self).next_id()) && old(self).next_id() < u64::MAX ==> {
                &&& res == Ok::<u64, DuplicateTask>(old(self).next_id())
                &&& ids_below(final(self)@, final(self).next_id())
            },
            (final(self)@, final(self).next_id(), res) == spec_record(
                old(self)@,
                old(self).next_id(),
                request,
                total,
            ),
    {
        broadcast use vstd::std_specs::hash::group_hash_axioms;
        proof {
            use_type_invariant(&*self);
        }
        let id = self.next_task_id;
        let next: u64 = if id == u64::MAX {
            0
        } else {
            id + 1
        };
        let mut tasks: HashMap<u64, Task<R>> = HashMap::new();
        std::mem::swap(&mut tasks, &mut self.tasks);
        let replaced = tasks.insert(id, Task { id, total, progress: 0, request });
        self.tasks = tasks;
        self.next_task_id = next;
        match replaced {
            Some(_) => Err(DuplicateTask { id }),
            None => Ok(id),
        }
    }

    /// Applies a progress message: the task it names grows by its
    /// increments, and the event for the user interface carries the
    /// message's kind and the task's new total and done part. A message for
    /// no recorded task changes nothing and its event carries `0` and `0`.
    pub fn apply_progress(&mut self, p: &TaskProgress) -> (res: ProgressEvent)
        requires
            old(self)@.contains_key(p.id) ==> old(self)@[p.id].total + p.total_increment <= u64::MAX
                && old(self)@[p.id].progress + p.current_increment <= u64::MAX,
        ensures
            final(self).next_id() == old(self).next_id(),
            res.task_type == p.task_type,
            old(self)@.contains_key(p.id) ==> {
                let t = old(self)@[p.id];
                &&& res.total == t.total + p.total_increment
                &&& res.progress == t.progress + p.current_increment
                &&& final(self)@ == old(self)@.insert(
                    p.id,
                    Task { total: res.total, progress: res.progress, ..t },
                )
            },
            !old(self)@.contains_key(p.id) ==> res.total == 0 && res.progress == 0 && final(self)@
                == old(self)@,
    {
        broadcast use vstd::std_specs::hash::group_hash_axioms;
        proof {
            use_type_invariant(&*self);
        }
        let mut tasks: HashMap<u64, Task<R>> = HashMap::new();
        std::mem::swap(&mut tasks, &mut self.tasks);
        let ghost before = tasks@;
        match tasks.remove(&p.id) {
            Some(t) => {
                let total = t.total + p.total_increment;
                let progress = t.progress + p.current_increment;
                let id = t.id;
                tasks.insert(p.id, Task { id, total, progress, request: t.request });
                assert(tasks@ =~= before.insert(p.id, Task { total, progress, ..before[p.id] }));
                self.tasks = tasks;
                ProgressEvent { task_type: p.task_type, total, progress }
            },
            None => {
                assert(tasks@ =~= before);
                self.tasks = tasks;
                ProgressEvent { task_type: p.task_type, total: 0, progress: 0 }
            },
        }
    }
}

} // verus!
