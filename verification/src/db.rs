//! The task store: configuration of the persistence layer, and an exact
//! model of the row operations the scheduler performs on it.
//!
//! The rows live in SQLite behind a connection pool; that plumbing stays
//! outside the library. What stands here is the contract of every
//! operation the scheduler asks of the store — which rows each touches
//! and how — together with a reference implementation over in-memory
//! rows that tests exercise directly.

use vstd::prelude::*;

use crate::task_scheduler::is_due_spec;
use crate::task_scheduler::is_task_due;
use crate::text::seq_le;
use crate::text::str_eq;
use crate::text::str_le;
use crate::types::ScheduledTask;
use crate::types::TaskRunLog;
use crate::types::clone_opt_string;
use crate::types::view_opt;

verus! {

/// How the persistence layer is tuned.
#[derive(Debug, Clone)]
pub struct DatabaseConfig {
    pub pool_size: u32,
    pub connection_timeout_ms: u64,
    pub db_path: String,
}

impl Default for DatabaseConfig {
    /// Ten pooled connections, a thirty-second wait for one, and the
    /// store file under the working directory.
    fn default() -> (r: Self)
        ensures
            r.pool_size == 10,
            r.connection_timeout_ms == 30000,
            r.db_path@ == "store/nuclaw.db"@,
    {
        DatabaseConfig {
            pool_size: 10,
            connection_timeout_ms: 30000,
            db_path: "store/nuclaw.db".to_owned(),
        }
    }
}

/// A snapshot of the connection pool.
#[derive(Debug, Clone)]
pub struct PoolStatus {
    pub connections_idle: u32,
    pub connections_active: u32,
    pub max_size: u32,
}

impl PoolStatus {
    /// The split of a pool's connections into idle and active.
    pub fn from_counts(idle: u32, connections: u32, max_size: u32) -> (r: PoolStatus)
        requires
            idle <= connections,
        ensures
            r.connections_idle == idle,
            r.connections_active == connections - idle,
            r.max_size == max_size,
    {
        PoolStatus { connections_idle: idle, connections_active: connections - idle, max_size }
    }
}

/// Where a task sorts among due tasks: by next-due ascending, an absent
/// next-due first.
pub open spec fn due_key_le(a: ScheduledTask, b: ScheduledTask) -> bool {
    match (a.next_run, b.next_run) {
        (None, _) => true,
        (Some(_), None) => false,
        (Some(x), Some(y)) => seq_le(x@, y@),
    }
}

/// `t` placed into an ordered run, after any task of equal key.
pub open spec fn sorted_insert(s: Seq<ScheduledTask>, t: ScheduledTask) -> Seq<ScheduledTask>
    decreases s.len(),
{
    if s.len() == 0 {
        seq![t]
    } else if due_key_le(s[0], t) {
        seq![s[0]] + sorted_insert(s.skip(1), t)
    } else {
        seq![t] + s
    }
}

/// The rows due at `now`, in dispatch order.
pub open spec fn due_sorted_spec(tasks: Seq<ScheduledTask>, now: Seq<char>) -> Seq<ScheduledTask>
    decreases tasks.len(),
{
    if tasks.len() == 0 {
        Seq::<ScheduledTask>::empty()
    } else {
        let prev = due_sorted_spec(tasks.take(tasks.len() - 1), now);
        let t = tasks[tasks.len() - 1];
        if is_due_spec(t, now) {
            sorted_insert(prev, t)
        } else {
            prev
        }
    }
}

/// Whether a run of tasks stands in dispatch order: each at or before
/// the next.
pub open spec fn due_ordered(s: Seq<ScheduledTask>) -> bool {
    forall|i: int, j: int| 0 <= i < j < s.len() ==> due_key_le(s[i], s[j])
}

proof fn lemma_due_key_le_total(a: ScheduledTask, b: ScheduledTask)
    ensures
        due_key_le(a, b) || due_key_le(b, a),
{
    match (a.next_run, b.next_run) {
        (Some(x), Some(y)) => crate::text::lemma_seq_le_total(x@, y@),
        _ => {},
    }
}

proof fn lemma_due_key_le_trans(a: ScheduledTask, b: ScheduledTask, c: ScheduledTask)
    requires
        due_key_le(a, b),
        due_key_le(b, c),
    ensures
        due_key_le(a, c),
{
    match (a.next_run, b.next_run, c.next_run) {
        (Some(x), Some(y), Some(z)) => crate::text::lemma_seq_le_trans(x@, y@, z@),
        _ => {},
    }
}

proof fn lemma_sorted_insert_elements(s: Seq<ScheduledTask>, t: ScheduledTask)
    ensures
        sorted_insert(s, t).len() == s.len() + 1,
        forall|k: int|
            0 <= k < s.len() + 1 ==> (#[trigger] sorted_insert(s, t)[k] == t || exists|m: int|
                0 <= m < s.len() && sorted_insert(s, t)[k] == s[m]),
    decreases s.len(),
{
    let r = sorted_insert(s, t);
    if s.len() == 0 {
    } else if due_key_le(s[0], t) {
        lemma_sorted_insert_elements(s.skip(1), t);
        let ri = sorted_insert(s.skip(1), t);
        assert forall|k: int| 0 <= k < s.len() + 1 implies (#[trigger] r[k] == t || exists|m: int|
            0 <= m < s.len() && r[k] == s[m]) by {
            if k == 0 {
                assert(r[0] == s[0]);
            } else {
                assert(r[k] == ri[k - 1]);
                if ri[k - 1] != t {
                    let m = choose|m: int| 0 <= m < s.skip(1).len() && ri[k - 1] == s.skip(1)[m];
                    assert(s.skip(1)[m] == s[m + 1]);
                    assert(r[k] == s[m + 1]);
                }
            }
        }
    } else {
        assert forall|k: int| 0 <= k < s.len() + 1 implies (#[trigger] r[k] == t || exists|m: int|
            0 <= m < s.len() && r[k] == s[m]) by {
            if k > 0 {
                assert(r[k] == s[k - 1]);
            }
        }
    }
}

proof fn lemma_sorted_insert_ordered(s: Seq<ScheduledTask>, t: ScheduledTask)
    requires
        due_ordered(s),
    ensures
        due_ordered(sorted_insert(s, t)),
    decreases s.len(),
{
    let r = sorted_insert(s, t);
    if s.len() == 0 {
    } else if due_key_le(s[0], t) {
        assert(due_ordered(s.skip(1))) by {
            assert(forall|i: int, j: int|
                0 <= i < j < s.skip(1).len() ==> s.skip(1)[i] == s[i + 1] && s.skip(1)[j] == s[j
                    + 1]);
        }
        lemma_sorted_insert_ordered(s.skip(1), t);
        lemma_sorted_insert_elements(s.skip(1), t);
        let ri = sorted_insert(s.skip(1), t);
        assert forall|i: int, j: int| 0 <= i < j < r.len() implies due_key_le(r[i], r[j]) by {
            if i == 0 {
                assert(r[0] == s[0]);
                assert(r[j] == ri[j - 1]);
                if ri[j - 1] == t {
                } else {
                    let m = choose|m: int| 0 <= m < s.skip(1).len() && ri[j - 1] == s.skip(1)[m];
                    assert(s.skip(1)[m] == s[m + 1]);
                    assert(due_key_le(s[0], s[m + 1]));
                }
            } else {
                assert(r[i] == ri[i - 1] && r[j] == ri[j - 1]);
            }
        }
    } else {
        lemma_due_key_le_total(s[0], t);
        assert forall|i: int, j: int| 0 <= i < j < r.len() implies due_key_le(r[i], r[j]) by {
            if i == 0 {
                assert(r[0] == t);
                assert(r[j] == s[j - 1]);
                if j > 1 {
                    assert(due_key_le(s[0], s[j - 1]));
                    lemma_due_key_le_trans(t, s[0], s[j - 1]);
                }
            } else {
                assert(r[i] == s[i - 1] && r[j] == s[j - 1]);
            }
        }
    }
}

/// Within one poll cycle the due tasks stand in dispatch order — the
/// earliest due first, an absent next-due time first of all — and every
/// task handed out is in fact due.
pub proof fn lemma_due_tasks_ordered(tasks: Seq<ScheduledTask>, now: Seq<char>)
    ensures
        due_ordered(due_sorted_spec(tasks, now)),
        forall|k: int|
            0 <= k < due_sorted_spec(tasks, now).len() ==> is_due_spec(
                #[trigger] due_sorted_spec(tasks, now)[k],
                now,
            ),
    decreases tasks.len(),
{
    if tasks.len() > 0 {
        lemma_due_tasks_ordered(tasks.take(tasks.len() - 1), now);
        let prev = due_sorted_spec(tasks.take(tasks.len() - 1), now);
        let t = tasks[tasks.len() - 1];
        if is_due_spec(t, now) {
            lemma_sorted_insert_ordered(prev, t);
            lemma_sorted_insert_elements(prev, t);
            let r = sorted_insert(prev, t);
            assert forall|k: int| 0 <= k < r.len() implies is_due_spec(#[trigger] r[k], now) by {
                if r[k] != t {
                    let m = choose|m: int| 0 <= m < prev.len() && r[k] == prev[m];
                    assert(is_due_spec(prev[m], now));
                }
            }
        }
    }
}

/// The first row carrying `id`.
pub open spec fn spec_get_task(tasks: Seq<ScheduledTask>, id: Seq<char>) -> Option<ScheduledTask>
    decreases tasks.len(),
{
    if tasks.len() == 0 {
        None
    } else if tasks[0].id@ == id {
        Some(tasks[0])
    } else {
        spec_get_task(tasks.skip(1), id)
    }
}

/// The fields of a row the scheduler never rewrites.
pub open spec fn same_task_core(a: ScheduledTask, b: ScheduledTask) -> bool {
    a.id == b.id && a.group_folder == b.group_folder && a.chat_jid == b.chat_jid && a.prompt
        == b.prompt && a.schedule_type == b.schedule_type && a.schedule_value == b.schedule_value
        && a.context_mode == b.context_mode && a.created_at == b.created_at
}

/// A row after its last run was recorded.
pub open spec fn last_run_updated(
    o: ScheduledTask,
    n: ScheduledTask,
    run_at: Seq<char>,
    last_result: Option<Seq<char>>,
) -> bool {
    same_task_core(o, n) && n.status == o.status && n.next_run == o.next_run && view_opt(n.last_run)
        == Some(run_at) && view_opt(n.last_result) == last_result
}

/// A row after its next due time was set.
pub open spec fn next_run_updated(o: ScheduledTask, n: ScheduledTask, next_run: Seq<char>) -> bool {
    same_task_core(o, n) && n.status == o.status && n.last_run == o.last_run && n.last_result
        == o.last_result && view_opt(n.next_run) == Some(next_run)
}

/// A row after its one-shot work finished: completed, with no next due
/// time ever again.
pub open spec fn completed_row(o: ScheduledTask, n: ScheduledTask) -> bool {
    same_task_core(o, n) && n.status@ == "completed"@ && n.next_run is None && n.last_run
        == o.last_run && n.last_result == o.last_result
}

/// A row after a failed attempt: failed, its scheduling left alone.
pub open spec fn failed_row(o: ScheduledTask, n: ScheduledTask) -> bool {
    same_task_core(o, n) && n.status@ == "failed"@ && n.next_run == o.next_run && n.last_run
        == o.last_run && n.last_result == o.last_result
}

/// The scheduler's view of the persistent store: task rows and an
/// append-only run history.
#[derive(Debug, Clone)]
pub struct TaskStore {
    tasks: Vec<ScheduledTask>,
    logs: Vec<TaskRunLog>,
}

impl TaskStore {
    /// The task rows.
    pub closed spec fn tasks_view(&self) -> Seq<ScheduledTask> {
        self.tasks@
    }

    /// The run history, oldest first.
    pub closed spec fn logs_view(&self) -> Seq<TaskRunLog> {
        self.logs@
    }

    /// An empty store.
    pub fn new() -> (r: TaskStore)
        ensures
            r.tasks_view().len() == 0,
            r.logs_view().len() == 0,
    {
        TaskStore { tasks: Vec::new(), logs: Vec::new() }
    }

    /// Add a row, as the management interface would.
    pub fn add_task(&mut self, task: ScheduledTask)
        ensures
            final (self).tasks_view() == old(self).tasks_view().push(task),
            final (self).logs_view() == old(self).logs_view(),
    {
        self.tasks.push(task);
    }

    /// The rows, for inspection.
    pub fn tasks(&self) -> (r: &Vec<ScheduledTask>)
        ensures
            r@ == self.tasks_view(),
    {
        &self.tasks
    }

    /// The run history, for inspection.
    pub fn logs(&self) -> (r: &Vec<TaskRunLog>)
        ensures
            r@ == self.logs_view(),
    {
        &self.logs
    }

    /// Load the task carrying `task_id`, if any.
    pub fn get_task(&self, task_id: &str) -> (r: Option<ScheduledTask>)
        ensures
            r == spec_get_task(self.tasks_view(), task_id@),
    {
        let n = self.tasks.len();
        let mut i: usize = 0;
        proof {
            assert(self.tasks@.skip(0) =~= self.tasks@);
        }
        while i < n
            invariant
                0 <= i <= n,
                n == self.tasks@.len(),
                spec_get_task(self.tasks@, task_id@) == spec_get_task(
                    self.tasks@.skip(i as int),
                    task_id@,
                ),
            decreases n - i,
        {
            if str_eq(self.tasks[i].id.as_str(), task_id) {
                proof {
                    assert(self.tasks@.skip(i as int)[0] == self.tasks@[i as int]);
                }
                return Some(self.tasks[i].clone());
            }
            proof {
                assert(self.tasks@.skip(i as int)[0] == self.tasks@[i as int]);
                assert(self.tasks@.skip(i as int).skip(1) =~= self.tasks@.skip(i + 1));
            }
            i += 1;
        }
        proof {
            assert(self.tasks@.skip(n as int) =~= Seq::<ScheduledTask>::empty());
        }
        None
    }

    /// The active rows whose next due time is absent or has passed,
    /// ordered for dispatch: earliest due first, absent first.
    pub fn list_due_tasks(&self, now: &str) -> (r: Vec<ScheduledTask>)
        ensures
            r@ == due_sorted_spec(self.tasks_view(), now@),
    {
        let n = self.tasks.len();
        let mut out: Vec<ScheduledTask> = Vec::new();
        proof {
            assert(self.tasks@.take(0) =~= Seq::<ScheduledTask>::empty());
        }
        let mut i: usize = 0;
        while i < n
            invariant
                0 <= i <= n,
                n == self.tasks@.len(),
                out@ == due_sorted_spec(self.tasks@.take(i as int), now@),
            decreases n - i,
        {
            let t = self.tasks[i].clone();
            proof {
                assert(t == self.tasks@[i as int]);
            }
            if is_task_due(&t, now) {
                let j = insert_pos(&out, &t);
                proof {
                    lemma_sorted_insert_at(out@, self.tasks@[i as int], j as int);
                }
                out.insert(j, t);
                proof {
                    assert(out@ =~= due_sorted_spec(self.tasks@.take(i as int), now@).take(j as int)
                        + seq![self.tasks@[i as int]] + due_sorted_spec(
                        self.tasks@.take(i as int),
                        now@,
                    ).skip(j as int));
                }
            }
            proof {
                assert(self.tasks@.take(i + 1).take(i as int) =~= self.tasks@.take(i as int));
                assert(self.tasks@.take(i + 1)[i as int] == self.tasks@[i as int]);
            }
            i += 1;
        }
        proof {
            assert(self.tasks@.take(n as int) =~= self.tasks@);
        }
        out
    }

    /// Append one run record; no row is touched.
    pub fn append_run_log(&mut self, log: TaskRunLog)
        ensures
            final (self).logs_view() == old(self).logs_view().push(log),
            final (self).tasks_view() == old(self).tasks_view(),
    {
        self.logs.push(log);
    }

    /// Record when a task last ran and with what result, on every row
    /// carrying `task_id` and no other.
    pub fn update_last_run(&mut self, task_id: &str, run_at: &str, last_result: &Option<String>)
        ensures
            final (self).logs_view() == old(self).logs_view(),
            final (self).tasks_view().len() == old(self).tasks_view().len(),
            forall|j: int|
                0 <= j < old(self).tasks_view().len() ==> if old(self).tasks_view()[j].id@
                    == task_id@ {
                    last_run_updated(
                        old(self).tasks_view()[j],
                        #[trigger] final (self).tasks_view()[j],
                        run_at@,
                        view_opt(*last_result),
                    )
                } else {
                    final (self).tasks_view()[j] == old(self).tasks_view()[j]
                },
    {
        let n = self.tasks.len();
        let mut i: usize = 0;
        while i < n
            invariant
                0 <= i <= n,
                n == self.tasks@.len(),
                self.logs@ == old(self).logs@,
                forall|j: int|
                    i <= j < n ==> self.tasks@[j] == old(self).tasks@[j],
                forall|j: int|
                    0 <= j < i ==> if old(self).tasks@[j].id@ == task_id@ {
                        last_run_updated(
                            old(self).tasks@[j],
                            #[trigger] self.tasks@[j],
                            run_at@,
                            view_opt(*last_result),
                        )
                    } else {
                        self.tasks@[j] == old(self).tasks@[j]
                    },
            decreases n - i,
        {
            if str_eq(self.tasks[i].id.as_str(), task_id) {
                let mut t = self.tasks[i].clone();
                t.last_run = Some(run_at.to_owned());
                t.last_result = clone_opt_string(last_result);
                self.tasks.set(i, t);
            }
            i += 1;
        }
    }

    /// Set when a task next runs, on every row carrying `task_id` and no
    /// other.
    pub fn update_next_run(&mut self, task_id: &str, next_run: &str)
        ensures
            final (self).logs_view() == old(self).logs_view(),
            final (self).tasks_view().len() == old(self).tasks_view().len(),
            forall|j: int|
                0 <= j < old(self).tasks_view().len() ==> if old(self).tasks_view()[j].id@
                    == task_id@ {
                    next_run_updated(
                        old(self).tasks_view()[j],
                        #[trigger] final (self).tasks_view()[j],
                        next_run@,
                    )
                } else {
                    final (self).tasks_view()[j] == old(self).tasks_view()[j]
                },
    {
        let n = self.tasks.len();
        let mut i: usize = 0;
        while i < n
            invariant
                0 <= i <= n,
                n == self.tasks@.len(),
                self.logs@ == old(self).logs@,
                forall|j: int|
                    i <= j < n ==> self.tasks@[j] == old(self).tasks@[j],
                forall|j: int|
                    0 <= j < i ==> if old(self).tasks@[j].id@ == task_id@ {
                        next_run_updated(
                            old(self).tasks@[j],
                            #[trigger] self.tasks@[j],
                            next_run@,
                        )
                    } else {
                        self.tasks@[j] == old(self).tasks@[j]
                    },
            decreases n - i,
        {
            if str_eq(self.tasks[i].id.as_str(), task_id) {
                let mut t = self.tasks[i].clone();
                t.next_run = Some(next_run.to_owned());
                self.tasks.set(i, t);
            }
            i += 1;
        }
    }

    /// Close out a one-shot task: completed, its next due time cleared,
    /// on every row carrying `task_id` and no other.
    pub fn mark_completed(&mut self, task_id: &str)
        ensures
            final (self).logs_view() == old(self).logs_view(),
            final (self).tasks_view().len() == old(self).tasks_view().len(),
            forall|j: int|
                0 <= j < old(self).tasks_view().len() ==> if old(self).tasks_view()[j].id@
                    == task_id@ {
                    completed_row(old(self).tasks_view()[j], #[trigger] final (self).tasks_view()[j])
                } else {
                    final (self).tasks_view()[j] == old(self).tasks_view()[j]
                },
    {
        let n = self.tasks.len();
        let mut i: usize = 0;
        while i < n
            invariant
                0 <= i <= n,
                n == self.tasks@.len(),
                self.logs@ == old(self).logs@,
                forall|j: int|
                    i <= j < n ==> self.tasks@[j] == old(self).tasks@[j],
                forall|j: int|
                    0 <= j < i ==> if old(self).tasks@[j].id@ == task_id@ {
                        completed_row(old(self).tasks@[j], #[trigger] self.tasks@[j])
                    } else {
                        self.tasks@[j] == old(self).tasks@[j]
                    },
            decreases n - i,
        {
            if str_eq(self.tasks[i].id.as_str(), task_id) {
                let mut t = self.tasks[i].clone();
                t.status = "completed".to_owned();
                t.next_run = None;
                self.tasks.set(i, t);
            }
            i += 1;
        }
    }

    /// Mark a task failed, leaving its scheduling alone, on every row
    /// carrying `task_id` and no other.
    pub fn mark_failed(&mut self, task_id: &str)
        ensures
            final (self).logs_view() == old(self).logs_view(),
            final (self).tasks_view().len() == old(self).tasks_view().len(),
            forall|j: int|
                0 <= j < old(self).tasks_view().len() ==> if old(self).tasks_view()[j].id@
                    == task_id@ {
                    failed_row(old(self).tasks_view()[j], #[trigger] final (self).tasks_view()[j])
                } else {
                    final (self).tasks_view()[j] == old(self).tasks_view()[j]
                },
    {
        let n = self.tasks.len();
        let mut i: usize = 0;
        while i < n
            invariant
                0 <= i <= n,
                n == self.tasks@.len(),
                self.logs@ == old(self).logs@,
                forall|j: int|
                    i <= j < n ==> self.tasks@[j] == old(self).tasks@[j],
                forall|j: int|
                    0 <= j < i ==> if old(self).tasks@[j].id@ == task_id@ {
                        failed_row(old(self).tasks@[j], #[trigger] self.tasks@[j])
                    } else {
                        self.tasks@[j] == old(self).tasks@[j]
                    },
            decreases n - i,
        {
            if str_eq(self.tasks[i].id.as_str(), task_id) {
                let mut t = self.tasks[i].clone();
                t.status = "failed".to_owned();
                self.tasks.set(i, t);
            }
            i += 1;
        }
    }
}

/// The position where `t` is placed in an ordered run: after every task
/// that sorts at or before it.
fn insert_pos(out: &Vec<ScheduledTask>, t: &ScheduledTask) -> (r: usize)
    ensures
        0 <= r <= out@.len(),
        forall|k: int| 0 <= k < r ==> due_key_le(out@[k], *t),
        r < out@.len() ==> !due_key_le(out@[r as int], *t),
{
    let m = out.len();
    let mut j: usize = 0;
    while j < m
        invariant
            0 <= j <= m,
            m == out@.len(),
            forall|k: int| 0 <= k < j ==> due_key_le(out@[k], *t),
        decreases m - j,
    {
        if !due_le_exec(&out[j], t) {
            return j;
        }
        j += 1;
    }
    j
}

/// Whether `a` sorts at or before `b` among due tasks, executably.
fn due_le_exec(a: &ScheduledTask, b: &ScheduledTask) -> (r: bool)
    ensures
        r == due_key_le(*a, *b),
{
    match (&a.next_run, &b.next_run) {
        (None, _) => true,
        (Some(_), None) => false,
        (Some(x), Some(y)) => str_le(x.as_str(), y.as_str()),
    }
}

proof fn lemma_sorted_insert_at(s: Seq<ScheduledTask>, t: ScheduledTask, j: int)
    requires
        0 <= j <= s.len(),
        forall|k: int| 0 <= k < j ==> due_key_le(s[k], t),
        j < s.len() ==> !due_key_le(s[j], t),
    ensures
        sorted_insert(s, t) == s.take(j) + seq![t] + s.skip(j),
    decreases j,
{
    if j == 0 {
        if s.len() == 0 {
            assert(sorted_insert(s, t) =~= s.take(0) + seq![t] + s.skip(0));
        } else {
            assert(seq![t] + s =~= s.take(0) + seq![t] + s.skip(0));
        }
    } else {
        lemma_sorted_insert_at(s.skip(1), t, j - 1);
        assert(s.skip(1).take(j - 1) =~= s.take(j).skip(1));
        assert(seq![s[0]] + (s.skip(1).take(j - 1) + seq![t] + s.skip(1).skip(j - 1)) =~= s.take(j)
            + seq![t] + s.skip(j));
    }
}

} // verus!
