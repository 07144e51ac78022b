//! Progress of download and install tasks.
//!
//! Every "install Java" or "fetch Paper" gets an id and a snapshot (status,
//! bytes downloaded and expected, error).  The table of snapshots is kept
//! here; broadcasting the snapshots and locking are the caller's.  Finished
//! tasks are dropped an hour after they finished.
use crate::text::{owned, str_eq};
use vstd::prelude::*;

verus! {

#[derive(Debug, Clone, Copy, PartialEq, Eq, Structural)]
pub enum TaskKind {
    InstallJava,
    InstallPaper,
}

impl TaskKind {
    /// The name used on the wire.
    pub fn as_str(&self) -> (r: &'static str)
        ensures
            r@ == match self {
                TaskKind::InstallJava => "installjava"@,
                TaskKind::InstallPaper => "installpaper"@,
            },
    {
        match self {
            TaskKind::InstallJava => "installjava",
            TaskKind::InstallPaper => "installpaper",
        }
    }
}

#[derive(Debug, Clone, Copy, PartialEq, Eq, Structural)]
pub enum TaskStatus {
    Queued,
    Running,
    Done,
    Failed,
}

impl TaskStatus {
    /// The name used on the wire.
    pub fn as_str(&self) -> (r: &'static str)
        ensures
            r@ == match self {
                TaskStatus::Queued => "queued"@,
                TaskStatus::Running => "running"@,
                TaskStatus::Done => "done"@,
                TaskStatus::Failed => "failed"@,
            },
    {
        match self {
            TaskStatus::Queued => "queued",
            TaskStatus::Running => "running",
            TaskStatus::Done => "done",
            TaskStatus::Failed => "failed",
        }
    }
}

#[derive(Debug)]
pub struct TaskSnapshot {
    pub id: String,
    pub kind: TaskKind,
    /// A short description, such as "Java 21 (Adoptium Temurin)".
    pub label: String,
    pub status: TaskStatus,
    /// Bytes downloaded so far.
    pub downloaded: u64,
    /// Bytes expected, when the server said.
    pub total: Option<u64>,
    /// Why the task failed.
    pub error: Option<String>,
    pub started_at: i64,
    pub finished_at: Option<i64>,
}

fn copy_opt(s: &Option<String>) -> (r: Option<String>)
    ensures
        r == *s,
{
    match s {
        Some(x) => Some(x.clone()),
        None => None,
    }
}

impl TaskSnapshot {
    /// A copy of the snapshot.
    pub fn copy(&self) -> (r: TaskSnapshot)
        ensures
            r == *self,
    {
        TaskSnapshot {
            id: self.id.clone(),
            kind: self.kind,
            label: self.label.clone(),
            status: self.status,
            downloaded: self.downloaded,
            total: self.total,
            error: copy_opt(&self.error),
            started_at: self.started_at,
            finished_at: self.finished_at,
        }
    }
}

/// A change a worker reports about its task.
pub enum TaskOp {
    MarkRunning,
    SetTotal(Option<u64>),
    AddProgress(u64),
    MarkDone,
    MarkFailed(String),
    /// The worker went away without saying how the task ended.
    Dropped,
}

pub open spec fn dropped_text() -> Seq<char> {
    "worker dropped without completion"@
}

pub open spec fn sat_add(a: u64, b: u64) -> u64 {
    if a + b > u64::MAX {
        u64::MAX
    } else {
        (a + b) as u64
    }
}

/// `b` is `a` after `op` at `now`: only the fields the change is about move.
pub open spec fn applied(a: TaskSnapshot, op: TaskOp, now: i64, b: TaskSnapshot) -> bool {
    &&& b.id == a.id
    &&& b.kind == a.kind
    &&& b.label == a.label
    &&& b.started_at == a.started_at
    &&& match op {
        TaskOp::MarkRunning => b == TaskSnapshot { status: TaskStatus::Running, ..a },
        TaskOp::SetTotal(t) => b == TaskSnapshot { total: t, ..a },
        TaskOp::AddProgress(n) => b == TaskSnapshot { downloaded: sat_add(a.downloaded, n), ..a },
        TaskOp::MarkDone => b == TaskSnapshot {
            status: TaskStatus::Done,
            finished_at: Some(now),
            ..a
        },
        TaskOp::MarkFailed(m) => b == TaskSnapshot {
            status: TaskStatus::Failed,
            error: Some(m),
            finished_at: Some(now),
            ..a
        },
        TaskOp::Dropped => if a.status == TaskStatus::Queued || a.status == TaskStatus::Running {
            &&& b.status == TaskStatus::Failed
            &&& b.error matches Some(e) && e@ == dropped_text()
            &&& b.finished_at == Some(now)
            &&& b.downloaded == a.downloaded
            &&& b.total == a.total
        } else {
            b == a
        },
    }
}

fn apply_op(s: &mut TaskSnapshot, op: TaskOp, now: i64)
    ensures
        applied(*old(s), op, now, *final(s)),
{
    match op {
        TaskOp::MarkRunning => {
            s.status = TaskStatus::Running;
        },
        TaskOp::SetTotal(t) => {
            s.total = t;
        },
        TaskOp::AddProgress(n) => {
            s.downloaded = s.downloaded.saturating_add(n);
        },
        TaskOp::MarkDone => {
            s.status = TaskStatus::Done;
            s.finished_at = Some(now);
        },
        TaskOp::MarkFailed(m) => {
            s.status = TaskStatus::Failed;
            s.error = Some(m);
            s.finished_at = Some(now);
        },
        TaskOp::Dropped => {
            if s.status == TaskStatus::Queued || s.status == TaskStatus::Running {
                s.status = TaskStatus::Failed;
                s.error = Some(owned("worker dropped without completion"));
                s.finished_at = Some(now);
            }
        },
    }
}

/// A finished task is dropped once it finished more than an hour before
/// `now`.
pub open spec fn expired(s: TaskSnapshot, now: i64) -> bool {
    (s.status == TaskStatus::Done || s.status == TaskStatus::Failed) && (s.finished_at matches Some(
        t,
    ) && t < now - 3600)
}

/// The snapshots of all tasks, one per id.
pub struct TaskTable {
    tasks: Vec<TaskSnapshot>,
}

impl TaskTable {
    pub closed spec fn has(&self, k: Seq<char>) -> bool {
        exists|i: int| 0 <= i < self.tasks@.len() && (#[trigger] self.tasks@[i]).id@ == k
    }

    pub closed spec fn get_spec(&self, k: Seq<char>) -> TaskSnapshot {
        let i = choose|i: int| 0 <= i < self.tasks@.len() && (#[trigger] self.tasks@[i]).id@ == k;
        self.tasks@[i]
    }

    /// Ids are unique.
    #[verifier::type_invariant]
    spec fn wf(&self) -> bool {
        forall|i: int, j: int|
            0 <= i < self.tasks@.len() && 0 <= j < self.tasks@.len() && i != j
                ==> (#[trigger] self.tasks@[i]).id@ != (#[trigger] self.tasks@[j]).id@
    }

    /// Each task's snapshot, by id.
    pub closed spec fn view(&self) -> Map<Seq<char>, TaskSnapshot> {
        Map::new(|k: Seq<char>| self.has(k), |k: Seq<char>| self.get_spec(k))
    }

    proof fn lemma_at(&self, i: int)
        requires
            self.wf(),
            0 <= i < self.tasks@.len(),
        ensures
            self.has(self.tasks@[i].id@),
            self.get_spec(self.tasks@[i].id@) == self.tasks@[i],
    {
        let k = self.tasks@[i].id@;
        assert(self.tasks@[i].id@ == k);
        let j = choose|j: int| 0 <= j < self.tasks@.len() && (#[trigger] self.tasks@[j]).id@ == k;
        if j != i {
            assert(self.tasks@[i].id@ != self.tasks@[j].id@);
        }
    }

    pub fn new() -> (r: TaskTable)
        ensures
            r.view() == Map::<Seq<char>, TaskSnapshot>::empty(),
    {
        let r = TaskTable { tasks: Vec::new() };
        assert(r.view() =~= Map::<Seq<char>, TaskSnapshot>::empty());
        r
    }

    fn find(&self, id: &str) -> (r: Option<usize>)
        requires
            self.wf(),
        ensures
            match r {
                Some(i) => i < self.tasks@.len() && self.tasks@[i as int].id@ == id@,
                None => !self.has(id@),
            },
    {
        let mut i: usize = 0;
        while i < self.tasks.len()
            invariant
                i <= self.tasks@.len(),
                forall|j: int| 0 <= j < i ==> (#[trigger] self.tasks@[j]).id@ != id@,
            decreases self.tasks.len() - i,
        {
            if str_eq(self.tasks[i].id.as_str(), id) {
                return Some(i);
            }
            i += 1;
        }
        None
    }

    /// The snapshot of task `id`.
    pub fn snapshot(&self, id: &str) -> (r: Option<TaskSnapshot>)
        ensures
            self.view().dom().contains(id@) ==> r == Some(self.view()[id@]),
            !self.view().dom().contains(id@) ==> r is None,
    {
        proof {
            use_type_invariant(self);
        }
        match self.find(id) {
            Some(i) => {
                proof {
                    self.lemma_at(i as int);
                }
                Some(self.tasks[i].copy())
            },
            None => None,
        }
    }

    /// Every snapshot, each once.
    pub fn list(&self) -> (r: Vec<TaskSnapshot>)
        ensures
            forall|i: int|
                0 <= i < r@.len() ==> self.view().dom().contains((#[trigger] r@[i]).id@)
                    && self.view()[r@[i].id@] == r@[i],
            forall|k: Seq<char>|
                #[trigger] self.view().dom().contains(k) ==> exists|i: int|
                    0 <= i < r@.len() && r@[i].id@ == k,
    {
        proof {
            use_type_invariant(self);
        }
        let mut out: Vec<TaskSnapshot> = Vec::new();
        let mut i: usize = 0;
        while i < self.tasks.len()
            invariant
                self.wf(),
                i <= self.tasks@.len(),
                out@.len() == i,
                forall|j: int| 0 <= j < i ==> out@[j] == self.tasks@[j],
            decreases self.tasks.len() - i,
        {
            out.push(self.tasks[i].copy());
            i += 1;
        }
        proof {
            assert forall|j: int| 0 <= j < out@.len() implies self.view().dom().contains(
                (#[trigger] out@[j]).id@,
            ) && self.view()[out@[j].id@] == out@[j] by {
                self.lemma_at(j);
            }
            assert forall|k: Seq<char>| #[trigger] self.view().dom().contains(k) implies exists|j: int|
                0 <= j < out@.len() && out@[j].id@ == k by {
                let j = choose|j: int| 0 <= j < self.tasks@.len() && (#[trigger] self.tasks@[j]).id@ == k;
                assert(out@[j].id@ == k);
            }
        }
        out
    }

    /// Sets the snapshot of `snap.id`, replacing any it had.
    pub fn insert(&mut self, snap: TaskSnapshot)
        ensures
            final(self).view() == old(self).view().insert(snap.id@, snap),
    {
        proof {
            use_type_invariant(&*self);
        }
        let idx = self.find(snap.id.as_str());
        let ghost old_self = *self;
        let ghost key = snap.id@;
        let ghost s = snap;
        match idx {
            Some(i) => {
                let mut ts: Vec<TaskSnapshot> = Vec::new();
                std::mem::swap(&mut ts, &mut self.tasks);
                ts.set(i, snap);
                assert forall|a: int, b: int|
                    0 <= a < ts@.len() && 0 <= b < ts@.len() && a != b
                        implies (#[trigger] ts@[a]).id@ != (#[trigger] ts@[b]).id@ by {
                    assert(old_self.tasks@[a].id@ != old_self.tasks@[b].id@);
                }
                self.tasks = ts;
                proof {
                    assert forall|k: Seq<char>| #[trigger] self.has(k) == old_self.has(k) by {
                        if old_self.has(k) {
                            let j = choose|j: int|
                                0 <= j < old_self.tasks@.len() && (#[trigger] old_self.tasks@[j]).id@ == k;
                            assert(self.tasks@[j].id@ == k);
                        }
                        if self.has(k) {
                            let j = choose|j: int|
                                0 <= j < self.tasks@.len() && (#[trigger] self.tasks@[j]).id@ == k;
                            assert(old_self.tasks@[j].id@ == k);
                        }
                    }
                    assert forall|a: int, b: int|
                        0 <= a < self.tasks@.len() && 0 <= b < self.tasks@.len() && a != b
                            implies (#[trigger] self.tasks@[a]).id@ != (#[trigger] self.tasks@[b]).id@ by {
                        assert(old_self.tasks@[a].id@ != old_self.tasks@[b].id@);
                    }
                    assert forall|k: Seq<char>| k != key && #[trigger] self.has(k) implies self.get_spec(k)
                        == old_self.get_spec(k) by {
                        let j = choose|j: int|
                            0 <= j < self.tasks@.len() && (#[trigger] self.tasks@[j]).id@ == k;
                        self.lemma_at(j);
                        old_self.lemma_at(j);
                    }
                    self.lemma_at(i as int);
                    assert(self.view() =~= old_self.view().insert(key, s));
                }
            },
            None => {
                let mut ts: Vec<TaskSnapshot> = Vec::new();
                std::mem::swap(&mut ts, &mut self.tasks);
                ts.push(snap);
                let ghost n = old_self.tasks@.len() as int;
                assert(ts@[n].id@ == key);
                assert forall|a: int, b: int|
                    0 <= a < ts@.len() && 0 <= b < ts@.len() && a != b
                        implies (#[trigger] ts@[a]).id@ != (#[trigger] ts@[b]).id@ by {
                    if a < n && b < n {
                        assert(old_self.tasks@[a].id@ != old_self.tasks@[b].id@);
                    } else if a < n {
                        assert(old_self.tasks@[a].id@ == ts@[a].id@);
                        assert(!old_self.has(key));
                    } else if b < n {
                        assert(old_self.tasks@[b].id@ == ts@[b].id@);
                        assert(!old_self.has(key));
                    }
                }
                self.tasks = ts;
                proof {
                    let n = old_self.tasks@.len() as int;
                    assert(self.tasks@[n].id@ == key);
                    assert forall|k: Seq<char>| #[trigger] self.has(k) == (old_self.has(k) || k == key) by {
                        if old_self.has(k) {
                            let j = choose|j: int|
                                0 <= j < old_self.tasks@.len() && (#[trigger] old_self.tasks@[j]).id@ == k;
                            assert(self.tasks@[j].id@ == k);
                        }
                        if self.has(k) && k != key {
                            let j = choose|j: int|
                                0 <= j < self.tasks@.len() && (#[trigger] self.tasks@[j]).id@ == k;
                            assert(j < n);
                            assert(old_self.tasks@[j].id@ == k);
                        }
                    }
                    assert forall|a: int, b: int|
                        0 <= a < self.tasks@.len() && 0 <= b < self.tasks@.len() && a != b
                            implies (#[trigger] self.tasks@[a]).id@ != (#[trigger] self.tasks@[b]).id@ by {
                        if a < n && b < n {
                            assert(old_self.tasks@[a].id@ != old_self.tasks@[b].id@);
                        } else if a < n {
                            assert(old_self.tasks@[a].id@ == self.tasks@[a].id@);
                        } else if b < n {
                            assert(old_self.tasks@[b].id@ == self.tasks@[b].id@);
                        }
                    }
                    assert forall|k: Seq<char>| k != key && #[trigger] self.has(k) implies self.get_spec(k)
                        == old_self.get_spec(k) by {
                        let j = choose|j: int|
                            0 <= j < self.tasks@.len() && (#[trigger] self.tasks@[j]).id@ == k;
                        assert(j < n);
                        self.lemma_at(j);
                        old_self.lemma_at(j);
                    }
                    self.lemma_at(n);
                    assert(self.view() =~= old_self.view().insert(key, s));
                }
            },
        }
    }

    /// Registers a new queued task with a fresh random id (the first twelve
    /// hex digits of a v4 UUID) and returns its snapshot.
    pub fn create(&mut self, kind: TaskKind, label: String, now: i64) -> (r: TaskSnapshot)
        ensures
            r.id@.len() == 12,
            r.kind == kind,
            r.label == label,
            r.status == TaskStatus::Queued,
            r.downloaded == 0,
            r.total is None,
            r.error is None,
            r.started_at == now,
            r.finished_at is None,
            final(self).view() == old(self).view().insert(r.id@, r),
    {
        let id = crate::credentials::short_id();
        let snap = TaskSnapshot {
            id,
            kind,
            label,
            status: TaskStatus::Queued,
            downloaded: 0,
            total: None,
            error: None,
            started_at: now,
            finished_at: None,
        };
        let out = snap.copy();
        self.insert(snap);
        out
    }

    /// Applies a worker's report to task `id` and returns the new snapshot;
    /// an unknown id changes nothing.
    pub fn update(&mut self, id: &str, op: TaskOp, now: i64) -> (r: Option<TaskSnapshot>)
        ensures
            !old(self).view().dom().contains(id@) ==> r is None && final(self).view() == old(
                self,
            ).view(),
            old(self).view().dom().contains(id@) ==> (r matches Some(s) && applied(
                old(self).view()[id@],
                op,
                now,
                s,
            ) && final(self).view() == old(self).view().insert(id@, s)),
    {
        proof {
            use_type_invariant(&*self);
        }
        match self.find(id) {
            Some(i) => {
                proof {
                    self.lemma_at(i as int);
                }
                let mut s = self.tasks[i].copy();
                apply_op(&mut s, op, now);
                let out = s.copy();
                self.insert(s);
                Some(out)
            },
            None => None,
        }
    }

    /// Drops the tasks that finished more than an hour before `now`.
    pub fn gc(&mut self, now: i64)
        requires
            now >= i64::MIN + 3600,
        ensures
            final(self).view() == old(self).view().restrict(
                old(self).view().dom().filter(|k: Seq<char>| !expired(old(self).view()[k], now)),
            ),
    {
        proof {
            use_type_invariant(&*self);
        }
        let ghost old_self = *self;
        let mut old_tasks: Vec<TaskSnapshot> = Vec::new();
        std::mem::swap(&mut old_tasks, &mut self.tasks);
        let mut kept: Vec<TaskSnapshot> = Vec::new();
        let mut rest = old_tasks;
        let ghost src = rest@;
        let ghost mut idx: Seq<int> = Seq::empty();
        let mut i: usize = 0;
        let cutoff = now - 3600;
        assert(src.subrange(0, src.len() as int) =~= src);
        assert(src.len() == rest.len());
        while rest.len() > 0
            invariant
                src == old_self.tasks@,
                src.len() <= usize::MAX,
                cutoff == now - 3600,
                i + rest@.len() == src.len(),
                rest@ == src.subrange(i as int, src.len() as int),
                i <= src.len(),
                idx.len() == kept@.len(),
                forall|a: int|
                    0 <= a < idx.len() ==> 0 <= #[trigger] idx[a] < i && src[idx[a]] == kept@[a]
                        && !expired(src[idx[a]], now),
                forall|a: int, c: int| 0 <= a < c < idx.len() ==> #[trigger] idx[a] < #[trigger] idx[c],
                forall|b: int|
                    0 <= b < i && !expired(#[trigger] src[b], now) ==> exists|a: int|
                        0 <= a < idx.len() && idx[a] == b,
            decreases rest.len(),
        {
            let t = rest.remove(0);
            assert(t == src[i as int]);
            let ghost old_idx = idx;
            let finished = t.status == TaskStatus::Done || t.status == TaskStatus::Failed;
            let old_enough = match t.finished_at {
                Some(f) => f < cutoff,
                None => false,
            };
            if !(finished && old_enough) {
                kept.push(t);
                proof {
                    idx = idx.push(i as int);
                }
            }
            i += 1;
            assert(rest@ =~= src.subrange(i as int, src.len() as int));
            assert forall|bb: int| 0 <= bb < i && !expired(#[trigger] src[bb], now) implies exists|a: int|
                0 <= a < idx.len() && idx[a] == bb by {
                if bb == i - 1 {
                    assert(idx[idx.len() - 1] == bb);
                } else {
                    let a = choose|a: int| 0 <= a < old_idx.len() && old_idx[a] == bb;
                    assert(idx[a] == bb);
                }
            }
        }
        assert(i == src.len()) by {
            assert(rest@.len() == 0);
        }
        assert forall|a: int, c: int|
            0 <= a < kept@.len() && 0 <= c < kept@.len() && a != c
                implies (#[trigger] kept@[a]).id@ != (#[trigger] kept@[c]).id@ by {
            if a < c {
                assert(idx[a] < idx[c]);
            } else {
                assert(idx[c] < idx[a]);
            }
            assert(src[idx[a]].id@ != src[idx[c]].id@);
        }
        self.tasks = kept;
        proof {
            let dom = old_self.view().dom().filter(|k: Seq<char>| !expired(old_self.view()[k], now));
            assert forall|k: Seq<char>| #[trigger] self.has(k) == dom.contains(k) by {
                if self.has(k) {
                    let a = choose|a: int| 0 <= a < self.tasks@.len() && (#[trigger] self.tasks@[a]).id@ == k;
                    old_self.lemma_at(idx[a]);
                    assert(old_self.view().dom().contains(k));
                }
                if dom.contains(k) {
                    assert(old_self.has(k));
                    let b = choose|b: int| 0 <= b < old_self.tasks@.len() && (#[trigger] old_self.tasks@[b]).id@ == k;
                    old_self.lemma_at(b);
                    assert(!expired(src[b], now));
                    let a = choose|a: int| 0 <= a < idx.len() && idx[a] == b;
                    assert(self.tasks@[a].id@ == k);
                }
            }
            assert forall|k: Seq<char>| #[trigger] self.has(k) implies self.get_spec(k) == old_self.get_spec(k) by {
                let a = choose|a: int| 0 <= a < self.tasks@.len() && (#[trigger] self.tasks@[a]).id@ == k;
                self.lemma_at(a);
                old_self.lemma_at(idx[a]);
            }
            assert(self.view() =~= old_self.view().restrict(dom));
        }
    }
}

/// A task that has not finished is never dropped by `gc`, whatever the time.
pub proof fn lemma_gc_keeps_unfinished(s: TaskSnapshot, now: i64)
    requires
        s.status == TaskStatus::Queued || s.status == TaskStatus::Running,
    ensures
        !expired(s, now),
{
}

/// A worker that goes away after its task finished changes nothing; one
/// that goes away before marks the task failed.
pub proof fn lemma_drop_after_finish(a: TaskSnapshot, b: TaskSnapshot, now: i64)
    requires
        applied(a, TaskOp::Dropped, now, b),
    ensures
        (a.status == TaskStatus::Done || a.status == TaskStatus::Failed) ==> b == a,
        (a.status == TaskStatus::Queued || a.status == TaskStatus::Running) ==> b.status
            == TaskStatus::Failed && b.error is Some,
{
}

} // verus!
