//! The task registry: admit tasks under their identifiers, look them up,
//! and decide what a periodic sweep removes — expired tasks from the map,
//! and files on disk whose decimal name belongs to no registered task.

use vstd::prelude::*;

use crate::task::{Task, TaskId};
use crate::text::{parse_u64, spec_parse_u64};

verus! {

/// The process-wide map from task identifier to task. Keys are unique;
/// order carries no meaning.
pub struct TaskManager {
    pub tasks: Vec<(TaskId, Task)>,
}

/// A task old enough for the sweep: it reached a terminal status longer
/// than the retention window ago.
pub open spec fn spec_expired(t: Task, now_ms: u64, retention_ms: u64) -> bool {
    match t.completed_at_spec() {
        Some(c) => c + retention_ms < now_ms,
        None => false,
    }
}

/// A file name the sweep deletes: it reads as a task identifier that no
/// registered task carries.
pub open spec fn spec_deletable(m: TaskManager, name: Seq<char>) -> bool {
    match spec_parse_u64(name) {
        Some(id) => !m.contains_spec(id),
        None => false,
    }
}

/// Every element a filter lets through is an element of the sequence it
/// filtered.
proof fn lemma_filter_sub<A>(s: Seq<A>, pred: spec_fn(A) -> bool, a: int)
    requires
        0 <= a < s.filter(pred).len(),
    ensures
        s.contains(s.filter(pred)[a]),
    decreases s.len(),
{
    reveal(Seq::filter);
    if s.len() == 0 {
    } else {
        let h = s.drop_last();
        let fh = h.filter(pred);
        if a < fh.len() {
            lemma_filter_sub(h, pred, a);
            let w = choose|w: int| 0 <= w < h.len() && h[w] == fh[a];
            assert(s[w] == s.filter(pred)[a]);
        } else {
            assert(pred(s.last()));
            assert(s.filter(pred)[a] == s.last());
            assert(s[s.len() - 1] == s.last());
        }
    }
}

/// A filter keeps registry keys distinct.
proof fn lemma_filter_distinct_ids(s: Seq<(TaskId, Task)>, pred: spec_fn((TaskId, Task)) -> bool)
    requires
        forall|i: int, j: int|
            0 <= i < j < s.len() ==> (#[trigger] s[i]).0 != (#[trigger] s[j]).0,
    ensures
        forall|a: int, b: int|
            0 <= a < b < s.filter(pred).len() ==> (#[trigger] s.filter(pred)[a]).0 != (
            #[trigger] s.filter(pred)[b]).0,
    decreases s.len(),
{
    reveal(Seq::filter);
    if s.len() == 0 {
    } else {
        let h = s.drop_last();
        assert(forall|i: int, j: int|
            0 <= i < j < h.len() ==> (#[trigger] h[i]).0 != (#[trigger] h[j]).0) by {
            assert(forall|i: int| 0 <= i < h.len() ==> #[trigger] h[i] == s[i]);
        }
        lemma_filter_distinct_ids(h, pred);
        let fh = h.filter(pred);
        let f = s.filter(pred);
        if pred(s.last()) {
            assert(f == fh.push(s.last()));
            assert forall|a: int, b: int|
                0 <= a < b < f.len() implies (#[trigger] f[a]).0 != (#[trigger] f[b]).0 by {
                if b < fh.len() {
                    assert(f[a] == fh[a]);
                    assert(f[b] == fh[b]);
                } else {
                    assert(f[b] == s.last());
                    assert(f[a] == fh[a]);
                    lemma_filter_sub(h, pred, a);
                    let w = choose|w: int| 0 <= w < h.len() && h[w] == fh[a];
                    assert(s[w] == fh[a]);
                    assert(s[w].0 != s[s.len() - 1].0);
                }
            }
        } else {
            assert(f == fh);
        }
    }
}

impl TaskManager {
    /// The registry invariant: keys are unique, every task is well formed
    /// and sits under its own identifier.
    pub open spec fn wf(self) -> bool {
        &&& forall|i: int, j: int|
            0 <= i < j < self.tasks@.len() ==> (#[trigger] self.tasks@[i]).0 != (
            #[trigger] self.tasks@[j]).0
        &&& forall|i: int| 0 <= i < self.tasks@.len() ==> (#[trigger] self.tasks@[i]).1.wf()
        &&& forall|i: int|
            0 <= i < self.tasks@.len() ==> (#[trigger] self.tasks@[i]).1.id == self.tasks@[
                i].0
    }

    /// Some task is registered under `id`.
    pub open spec fn contains_spec(self, id: TaskId) -> bool {
        exists|i: int| 0 <= i < self.tasks@.len() && (#[trigger] self.tasks@[i]).0 == id
    }

    /// An empty registry.
    pub fn new() -> (r: TaskManager)
        ensures
            r.wf(),
            r.tasks@.len() == 0,
    {
        TaskManager { tasks: Vec::new() }
    }

    /// Is a task registered under `id`?
    pub fn contains(&self, id: TaskId) -> (r: bool)
        ensures
            r == self.contains_spec(id),
    {
        let n = self.tasks.len();
        let mut i: usize = 0;
        while i < n
            invariant
                0 <= i <= n,
                n == self.tasks@.len(),
                forall|m: int| 0 <= m < i ==> (#[trigger] self.tasks@[m]).0 != id,
            decreases n - i,
        {
            if self.tasks[i].0 == id {
                return true;
            }
            i = i + 1;
        }
        false
    }

    /// Admit a task under its identifier. An identifier already in use is
    /// an admission failure: the registry is untouched and the caller
    /// retries with a fresh identifier.
    pub fn insert_task(&mut self, task: Task) -> (r: bool)
        requires
            old(self).wf(),
            task.wf(),
        ensures
            final(self).wf(),
            r <==> !old(self).contains_spec(task.id),
            r ==> final(self).tasks@ == old(self).tasks@.push((task.id, task)),
            !r ==> *final(self) == *old(self),
            final(self).contains_spec(task.id),
    {
        if self.contains(task.id) {
            return false;
        }
        let ghost old_tasks = self.tasks@;
        let ghost the_id = task.id;
        self.tasks.push((task.id, task));
        proof {
            assert(self.tasks@[old_tasks.len() as int].0 == the_id);
            assert forall|i: int, j: int|
                0 <= i < j < self.tasks@.len() implies (#[trigger] self.tasks@[i]).0 != (
            #[trigger] self.tasks@[j]).0 by {
                if j < old_tasks.len() {
                    assert(self.tasks@[i] == old_tasks[i]);
                    assert(self.tasks@[j] == old_tasks[j]);
                } else {
                    assert(self.tasks@[i] == old_tasks[i]);
                }
            }
        }
        true
    }

    /// Look up the task registered under `id`.
    pub fn get_task(&self, id: TaskId) -> (r: Option<&Task>)
        requires
            self.wf(),
        ensures
            r is Some <==> self.contains_spec(id),
            r matches Some(t) ==> t.id == id && t.wf() && exists|i: int|
                0 <= i < self.tasks@.len() && (#[trigger] self.tasks@[i]).1 == *t,
    {
        let n = self.tasks.len();
        let mut i: usize = 0;
        while i < n
            invariant
                0 <= i <= n,
                n == self.tasks@.len(),
                self.wf(),
                forall|m: int| 0 <= m < i ==> (#[trigger] self.tasks@[m]).0 != id,
            decreases n - i,
        {
            if self.tasks[i].0 == id {
                return Some(&self.tasks[i].1);
            }
            i = i + 1;
        }
        None
    }

    /// Remove every expired task — terminal, and past the retention
    /// window — and say which identifiers went.
    ///
    /// Afterwards the registry holds exactly the tasks that were not
    /// expired, in their old order, and the returned identifiers are
    /// exactly those of the removed tasks.
    pub fn cleanup_tasks(&mut self, now_ms: u64, retention_ms: u64) -> (removed: Vec<TaskId>)
        requires
            old(self).wf(),
        ensures
            final(self).wf(),
            final(self).tasks@ == old(self).tasks@.filter(
                |p: (TaskId, Task)| !spec_expired(p.1, now_ms, retention_ms),
            ),
            removed@ == old(self).tasks@.filter(
                |p: (TaskId, Task)| spec_expired(p.1, now_ms, retention_ms),
            ).map_values(|p: (TaskId, Task)| p.0),
    {
        let ghost old_tasks = self.tasks@;
        let ghost keep = |p: (TaskId, Task)| !spec_expired(p.1, now_ms, retention_ms);
        let ghost expire = |p: (TaskId, Task)| spec_expired(p.1, now_ms, retention_ms);
        let mut kept: Vec<(TaskId, Task)> = Vec::new();
        let mut removed: Vec<TaskId> = Vec::new();
        let ghost i: int = 0;
        proof {
            reveal(Seq::filter);
            assert(old_tasks.take(0) =~= Seq::<(TaskId, Task)>::empty());
            assert(old_tasks.skip(0) =~= old_tasks);
            assert(kept@ =~= old_tasks.take(0).filter(keep));
            assert(removed@ =~= old_tasks.take(0).filter(expire).map_values(
                |p: (TaskId, Task)| p.0,
            ));
        }
        while self.tasks.len() > 0
            invariant
                0 <= i <= old_tasks.len(),
                self.tasks@ == old_tasks.skip(i),
                kept@ == old_tasks.take(i).filter(keep),
                removed@ == old_tasks.take(i).filter(expire).map_values(
                    |p: (TaskId, Task)| p.0,
                ),
                keep == (|p: (TaskId, Task)| !spec_expired(p.1, now_ms, retention_ms)),
                expire == (|p: (TaskId, Task)| spec_expired(p.1, now_ms, retention_ms)),
            decreases self.tasks@.len(),
        {
            let pair = self.tasks.remove(0);
            proof {
                assert(old_tasks.skip(i)[0] == old_tasks[i]);
                assert(old_tasks.skip(i).remove(0) =~= old_tasks.skip(i + 1));
            }
            let expired = match pair.1.completed_at() {
                Some(c) => c < now_ms && now_ms - c > retention_ms,
                None => false,
            };
            let ghost before_kept = kept@;
            let ghost before_removed = removed@;
            let the_id = pair.0;
            if expired {
                removed.push(the_id);
            } else {
                kept.push(pair);
            }
            proof {
                reveal(Seq::filter);
                let t1 = old_tasks.take(i + 1);
                assert(t1.drop_last() =~= old_tasks.take(i));
                assert(t1.last() == old_tasks[i]);
                assert(expired == spec_expired(old_tasks[i].1, now_ms, retention_ms));
                if expired {
                    assert(removed@ =~= before_removed.push(old_tasks[i].0));
                    assert(removed@ =~= t1.filter(expire).map_values(
                        |p: (TaskId, Task)| p.0,
                    ));
                    assert(kept@ =~= t1.filter(keep));
                } else {
                    assert(kept@ =~= before_kept.push(old_tasks[i]));
                    assert(kept@ =~= t1.filter(keep));
                    assert(removed@ =~= t1.filter(expire).map_values(
                        |p: (TaskId, Task)| p.0,
                    ));
                }
                i = i + 1;
            }
        }
        proof {
            assert(old_tasks.take(old_tasks.len() as int) =~= old_tasks);
            assert(i == old_tasks.len());
        }
        self.tasks = kept;
        proof {
            let f = old_tasks.filter(keep);
            lemma_filter_distinct_ids(old_tasks, keep);
            assert forall|a: int| 0 <= a < f.len() implies (#[trigger] f[a]).1.wf() && f[
                a].1.id == f[a].0 by {
                lemma_filter_sub(old_tasks, keep, a);
                let w = choose|w: int| 0 <= w < old_tasks.len() && old_tasks[w] == f[a];
            }
        }
        removed
    }

    /// Which of the given file names the sweep deletes: exactly those that
    /// read as a task identifier with no registered task. Names that do
    /// not read as an identifier are left alone.
    pub fn cleanup_task_files(&self, file_names: &Vec<String>) -> (to_delete: Vec<String>)
        requires
            self.wf(),
        ensures
            to_delete@.map_values(|s: String| s@) == file_names@.map_values(
                |s: String| s@,
            ).filter(|nm: Seq<char>| spec_deletable(*self, nm)),
    {
        let ghost views = file_names@.map_values(|s: String| s@);
        let ghost del = |nm: Seq<char>| spec_deletable(*self, nm);
        let n = file_names.len();
        let mut to_delete: Vec<String> = Vec::new();
        let mut i: usize = 0;
        proof {
            reveal(Seq::filter);
            assert(views.take(0) =~= Seq::<Seq<char>>::empty());
            assert(to_delete@.map_values(|s: String| s@) =~= views.take(0).filter(del));
        }
        while i < n
            invariant
                0 <= i <= n,
                n == file_names@.len(),
                views == file_names@.map_values(|s: String| s@),
                del == (|nm: Seq<char>| spec_deletable(*self, nm)),
                self.wf(),
                to_delete@.map_values(|s: String| s@) == views.take(i as int).filter(del),
            decreases n - i,
        {
            let name: &String = &file_names[i];
            let ghost before = to_delete@;
            let parsed = parse_u64(name.as_str());
            let delete_it = match parsed {
                Some(id) => !self.contains(id),
                None => false,
            };
            if delete_it {
                to_delete.push(String::from_str(name.as_str()));
            }
            proof {
                reveal(Seq::filter);
                let t1 = views.take(i + 1);
                assert(t1.drop_last() =~= views.take(i as int));
                assert(t1.last() == views[i as int]);
                assert(views[i as int] == name@);
                assert(delete_it == del(name@));
                if delete_it {
                    let cl = to_delete@[to_delete@.len() - 1];
                    assert(cl@ == name@);
                    assert(to_delete@ =~= before.push(cl));
                    assert(to_delete@.map_values(|s: String| s@) =~= before.map_values(
                        |s: String| s@,
                    ).push(cl@));
                    assert(to_delete@.map_values(|s: String| s@) =~= t1.filter(del));
                } else {
                    assert(to_delete@.map_values(|s: String| s@) =~= t1.filter(del));
                }
            }
            i = i + 1;
        }
        proof {
            assert(views.take(n as int) =~= views);
        }
        to_delete
    }
}

/// Law: a finished sweep leaves no deletable file behind. Any file whose
/// name reads as a task identifier and which the sweep did not select has
/// its task in the registry; and `cleanup_tasks` leaves exactly the tasks
/// inside the retention window, which its own contract states.
pub proof fn lemma_sweep_files_complete(
    m: TaskManager,
    names: Seq<Seq<char>>,
    selected: Seq<Seq<char>>,
    k: int,
)
    requires
        selected == names.filter(|nm: Seq<char>| spec_deletable(m, nm)),
        0 <= k < names.len(),
        !selected.contains(names[k]),
        spec_parse_u64(names[k]) is Some,
    ensures
        m.contains_spec(spec_parse_u64(names[k])->0),
{
    let del = |nm: Seq<char>| spec_deletable(m, nm);
    if !m.contains_spec(spec_parse_u64(names[k])->0) {
        assert(del(names[k]));
        names.lemma_filter_contains(del, k);
    }
}

/// The identifiers of the expired entries: those whose completion time
/// lies more than the retention window before now.
pub fn expired_ids(
    entries: &Vec<(TaskId, Option<u64>)>,
    now_ms: u64,
    retention_ms: u64,
) -> (removed: Vec<TaskId>)
    ensures
        removed@ == entries@.filter(
            |p: (TaskId, Option<u64>)| match p.1 {
                Some(c) => c + retention_ms < now_ms,
                None => false,
            },
        ).map_values(|p: (TaskId, Option<u64>)| p.0),
{
    let ghost expire = |p: (TaskId, Option<u64>)| match p.1 {
        Some(c) => c + retention_ms < now_ms,
        None => false,
    };
    let n = entries.len();
    let mut removed: Vec<TaskId> = Vec::new();
    let mut i: usize = 0;
    proof {
        reveal(Seq::filter);
        assert(entries@.take(0) =~= Seq::<(TaskId, Option<u64>)>::empty());
        assert(removed@ =~= entries@.take(0).filter(expire).map_values(
            |p: (TaskId, Option<u64>)| p.0,
        ));
    }
    while i < n
        invariant
            0 <= i <= n,
            n == entries@.len(),
            expire == (|p: (TaskId, Option<u64>)| match p.1 {
                Some(c) => c + retention_ms < now_ms,
                None => false,
            }),
            removed@ == entries@.take(i as int).filter(expire).map_values(
                |p: (TaskId, Option<u64>)| p.0,
            ),
        decreases n - i,
    {
        let p = entries[i];
        let expired = match p.1 {
            Some(c) => c < now_ms && now_ms - c > retention_ms,
            None => false,
        };
        let ghost before = removed@;
        if expired {
            removed.push(p.0);
        }
        proof {
            reveal(Seq::filter);
            let t1 = entries@.take(i + 1);
            assert(t1.drop_last() =~= entries@.take(i as int));
            assert(t1.last() == entries@[i as int]);
            assert(expired == expire(entries@[i as int]));
            if expired {
                assert(removed@ =~= before.push(entries@[i as int].0));
            }
            assert(removed@ =~= t1.filter(expire).map_values(
                |p: (TaskId, Option<u64>)| p.0,
            ));
        }
        i = i + 1;
    }
    proof {
        assert(entries@.take(n as int) =~= entries@);
    }
    removed
}

/// A name in `names` reads as a task identifier that `ids` does not hold.
pub open spec fn spec_stray_name(ids: Seq<TaskId>, name: Seq<char>) -> bool {
    match spec_parse_u64(name) {
        Some(id) => !ids.contains(id),
        None => false,
    }
}

/// Which of the given file names belong to no live identifier: exactly
/// those that read as a task identifier outside `ids`. Names that do not
/// read as an identifier are left alone.
pub fn files_to_delete(ids: &Vec<TaskId>, names: &Vec<String>) -> (to_delete: Vec<String>)
    ensures
        to_delete@.map_values(|s: String| s@) == names@.map_values(|s: String| s@).filter(
            |nm: Seq<char>| spec_stray_name(ids@, nm),
        ),
{
    let ghost views = names@.map_values(|s: String| s@);
    let ghost del = |nm: Seq<char>| spec_stray_name(ids@, nm);
    let n = names.len();
    let mut to_delete: Vec<String> = Vec::new();
    let mut i: usize = 0;
    proof {
        reveal(Seq::filter);
        assert(views.take(0) =~= Seq::<Seq<char>>::empty());
        assert(to_delete@.map_values(|s: String| s@) =~= views.take(0).filter(del));
    }
    while i < n
        invariant
            0 <= i <= n,
            n == names@.len(),
            views == names@.map_values(|s: String| s@),
            del == (|nm: Seq<char>| spec_stray_name(ids@, nm)),
            to_delete@.map_values(|s: String| s@) == views.take(i as int).filter(del),
        decreases n - i,
    {
        let name: &String = &names[i];
        let ghost before = to_delete@;
        let delete_it = match parse_u64(name.as_str()) {
            Some(id) => !id_listed(ids, id),
            None => false,
        };
        if delete_it {
            to_delete.push(String::from_str(name.as_str()));
        }
        proof {
            reveal(Seq::filter);
            let t1 = views.take(i + 1);
            assert(t1.drop_last() =~= views.take(i as int));
            assert(t1.last() == views[i as int]);
            assert(views[i as int] == name@);
            assert(delete_it == del(name@));
            if delete_it {
                let cl = to_delete@[to_delete@.len() - 1];
                assert(cl@ == name@);
                assert(to_delete@ =~= before.push(cl));
                assert(to_delete@.map_values(|s: String| s@) =~= before.map_values(
                    |s: String| s@,
                ).push(cl@));
                assert(to_delete@.map_values(|s: String| s@) =~= t1.filter(del));
            } else {
                assert(to_delete@.map_values(|s: String| s@) =~= t1.filter(del));
            }
        }
        i = i + 1;
    }
    proof {
        assert(views.take(n as int) =~= views);
    }
    to_delete
}

/// Does the list hold the identifier?
fn id_listed(ids: &Vec<TaskId>, id: TaskId) -> (r: bool)
    ensures
        r == ids@.contains(id),
{
    let n = ids.len();
    let mut i: usize = 0;
    while i < n
        invariant
            0 <= i <= n,
            n == ids@.len(),
            forall|m: int| 0 <= m < i ==> ids@[m] != id,
        decreases n - i,
    {
        if ids[i] == id {
            return true;
        }
        i = i + 1;
    }
    proof {
        if ids@.contains(id) {
            let w = choose|w: int| 0 <= w < ids@.len() && ids@[w] == id;
        }
    }
    false
}

/// The current wall clock, in Unix milliseconds. A reading before the
/// epoch clamps to zero.
pub fn now_unix_millis() -> (r: u64) {
    let ns = now_utc_unix_nanos();
    let ms = ns / 1_000_000;
    if ms < 0 {
        0
    } else if ms > 0xffff_ffff_ffff_ffff {
        u64::MAX
    } else {
        ms as u64
    }
}

/// Relies on `time::OffsetDateTime::now_utc`: the current wall-clock time
/// as nanoseconds since the Unix epoch; nothing is promised of a clock
/// reading.
#[verifier::external_body]
fn now_utc_unix_nanos() -> (r: i128) {
    time::OffsetDateTime::now_utc().unix_timestamp_nanos()
}

} // verus!
