//! The schedule calculator and the scheduler's decision logic.
//!
//! Three schedule kinds govern when a task runs again: `cron` (an
//! expression evaluated by the cron crate), `interval` (a millisecond
//! count), and `once` (never again). Every decision here is a pure
//! function of the task row and an injected current instant; the clock,
//! the store and the subprocess live outside the library.

use std::str::FromStr;

use vstd::prelude::*;

use crate::db::TaskStore;
use crate::db::same_task_core;
use crate::error::NuClawError;
use crate::error::NuClawResult;
use crate::types::ContainerOutput;
use crate::types::ContainerOutputView;
use crate::types::TaskRunLog;
use crate::types::clone_opt_string;
use crate::types::view_opt;
use crate::text::parse_millis_spec;
use crate::text::parse_nonneg_i64;
use crate::text::seq_le;
use crate::text::str_eq;
use crate::text::str_le;
use crate::types::ScheduledTask;

verus! {

/// The latest instant, in milliseconds, the schedule calculator
/// evaluates. chrono's datetime range reaches several millennia past
/// this bound, so every instant the cron evaluator derives — it looks
/// one second beyond the instant it is given — stays representable, and
/// every occurrence below the bound can be rendered for storage.
pub const MAX_SCHEDULE_INSTANT_MS: i64 = 8_000_000_000_000_000;

#[verifier::external_type_specification]
#[verifier::external_body]
pub struct ExSchedule(cron::Schedule);

/// Whether the cron crate accepts an expression; a name for what its
/// parser decides.
pub uninterp spec fn cron_accepts(expr: Seq<char>) -> bool;

/// The first occurrence of a cron expression strictly after an instant,
/// in milliseconds; a name for what the cron crate computes. Nothing when
/// the expression is refused, the instant cannot be represented, or no
/// occurrence is left.
pub uninterp spec fn cron_next_from(expr: Seq<char>, now_ms: int) -> Option<int>;

/// Relies on cron::Schedule::from_str: whether a cron expression parses
/// depends on its characters alone.
#[verifier::external_body]
pub fn parse_cron_expression(expr: &str) -> (r: NuClawResult<cron::Schedule>)
    ensures
        r is Ok <==> cron_accepts(expr@),
{
    cron::Schedule::from_str(expr).map_err(
        |e| NuClawError::Scheduler { message: format!("Invalid cron expression '{}': {}", expr, e) },
    )
}

/// Relies on cron::Schedule::from_str and ScheduleIterator::next, through
/// chrono's millisecond timestamps: the first occurrence of a cron
/// expression after an instant depends on the expression and the instant
/// alone, and the iterator begins strictly after the instant handed to
/// `Schedule::after`. The evaluator adds one second to that instant, a
/// sum that must stay within chrono's range; the bound on `now_ms`
/// keeps it there.
#[verifier::external_body]
fn cron_next_occurrence(expr: &str, now_ms: i64) -> (r: Option<i64>)
    requires
        now_ms <= MAX_SCHEDULE_INSTANT_MS,
    ensures
        match r {
            Some(t) => cron_next_from(expr@, now_ms as int) == Some(t as int) && now_ms < t,
            None => cron_next_from(expr@, now_ms as int) is None,
        },
        r is Some ==> cron_accepts(expr@),
{
    let schedule = match cron::Schedule::from_str(expr) {
        Ok(s) => s,
        Err(_) => return None,
    };
    let now = match chrono::DateTime::<chrono::Utc>::from_timestamp_millis(now_ms) {
        Some(d) => d,
        None => return None,
    };
    match schedule.after(&now).next() {
        Some(d) => Some(d.timestamp_millis()),
        None => None,
    }
}

/// Relies on cron::Schedule::after and ScheduleIterator::next: the
/// occurrence handed back is never before the instant given, which
/// stands in where the schedule has no further occurrence or the instant
/// cannot be represented. The evaluator adds one second to the given
/// instant, a sum that must stay within chrono's range; the bound on
/// `now_ms` keeps it there.
#[verifier::external_body]
pub fn get_next_run_time(schedule: &cron::Schedule, now_ms: i64) -> (r: i64)
    requires
        now_ms <= MAX_SCHEDULE_INSTANT_MS,
    ensures
        now_ms <= r,
{
    let now = match chrono::DateTime::<chrono::Utc>::from_timestamp_millis(now_ms) {
        Some(d) => d,
        None => return now_ms,
    };
    match schedule.after(&now).next() {
        Some(d) => d.timestamp_millis(),
        None => now_ms,
    }
}

/// The RFC 3339 rendering of an instant given in milliseconds; a name for
/// what chrono writes.
pub uninterp spec fn rfc3339_of(ms: int) -> Seq<char>;

/// Relies on chrono's DateTime::from_timestamp_millis and to_rfc3339: the
/// rendered text depends on the millisecond value alone, and every
/// instant within chrono's range — which reaches well past the bound
/// used here — is rendered; only an instant outside that range yields
/// nothing.
#[verifier::external_body]
pub(crate) fn format_rfc3339_millis(ms: i64) -> (r: Option<String>)
    ensures
        r matches Some(s) ==> s@ == rfc3339_of(ms as int),
        0 <= ms <= MAX_SCHEDULE_INSTANT_MS ==> r is Some,
{
    match chrono::DateTime::<chrono::Utc>::from_timestamp_millis(ms) {
        Some(d) => Some(d.to_rfc3339()),
        None => None,
    }
}

/// When a schedule yields a next occurrence, and which: `cron` at the
/// expression's first occurrence strictly after now, for an instant the
/// evaluator can represent; `interval` at now plus the parsed
/// non-negative millisecond count, when the value parses and the sum
/// fits; `once` and unknown kinds never.
pub open spec fn next_run_spec(
    schedule_type: Seq<char>,
    schedule_value: Seq<char>,
    now_ms: int,
) -> Option<int> {
    if schedule_type == "cron"@ {
        if now_ms <= MAX_SCHEDULE_INSTANT_MS as int {
            cron_next_from(schedule_value, now_ms)
        } else {
            None
        }
    } else if schedule_type == "interval"@ {
        match parse_millis_spec(schedule_value) {
            Some(ms) => if now_ms + ms <= i64::MAX {
                Some(now_ms + ms)
            } else {
                None
            },
            None => None,
        }
    } else {
        None
    }
}

/// The next instant a task is due, in milliseconds, or nothing when the
/// task has no further occurrence. An unparseable interval or cron value
/// yields nothing rather than an error. An occurrence never lies before
/// the current instant, and a cron occurrence lies strictly after it.
pub fn calculate_next_run(task: &ScheduledTask, now_ms: i64) -> (r: Option<i64>)
    ensures
        match r {
            Some(t) => next_run_spec(task.schedule_type@, task.schedule_value@, now_ms as int)
                == Some(t as int) && now_ms <= t,
            None => next_run_spec(task.schedule_type@, task.schedule_value@, now_ms as int)
                is None,
        },
        task.schedule_type@ == "cron"@ ==> (r matches Some(t) ==> now_ms < t),
        task.schedule_type@ == "cron"@ && !cron_accepts(task.schedule_value@) ==> r is None,
{
    if str_eq(task.schedule_type.as_str(), "cron") {
        if now_ms <= MAX_SCHEDULE_INSTANT_MS {
            cron_next_occurrence(task.schedule_value.as_str(), now_ms)
        } else {
            None
        }
    } else if str_eq(task.schedule_type.as_str(), "interval") {
        match parse_nonneg_i64(task.schedule_value.as_str()) {
            Some(ms) => now_ms.checked_add(ms),
            None => None,
        }
    } else {
        None
    }
}

/// The next due instant rendered for storage: every representable
/// occurrence is rendered; nothing only when the schedule yields no
/// further occurrence or the occurrence lies outside the renderer's
/// range.
pub fn calculate_next_run_string(task: &ScheduledTask, now_ms: i64) -> (r: Option<String>)
    ensures
        r matches Some(s) ==> next_run_spec(task.schedule_type@, task.schedule_value@, now_ms as int)
            is Some && s@ == rfc3339_of(
            next_run_spec(task.schedule_type@, task.schedule_value@, now_ms as int)->0,
        ),
        next_run_spec(task.schedule_type@, task.schedule_value@, now_ms as int) is None ==> r
            is None,
        (next_run_spec(task.schedule_type@, task.schedule_value@, now_ms as int) matches Some(t)
            && 0 <= t <= MAX_SCHEDULE_INSTANT_MS as int) ==> r is Some,
{
    match calculate_next_run(task, now_ms) {
        Some(t) => format_rfc3339_millis(t),
        None => None,
    }
}

/// An interval schedule whose value parses to a millisecond count comes
/// due exactly that many milliseconds after the current instant.
pub proof fn lemma_interval_exact(value: Seq<char>, now_ms: int, ms: int)
    requires
        parse_millis_spec(value) == Some(ms),
        now_ms + ms <= i64::MAX,
    ensures
        next_run_spec("interval"@, value, now_ms) == Some(now_ms + ms),
{
    reveal_strlit("cron");
    reveal_strlit("interval");
    assert("interval"@.len() == 8);
    assert("cron"@.len() == 4);
    assert("interval"@ != "cron"@);
}

/// An interval value that does not parse as a non-negative integer
/// yields no further occurrence rather than an error.
pub proof fn lemma_interval_unparseable(value: Seq<char>, now_ms: int)
    requires
        parse_millis_spec(value) is None,
    ensures
        next_run_spec("interval"@, value, now_ms) is None,
{
    reveal_strlit("cron");
    reveal_strlit("interval");
    assert("interval"@.len() == 8);
    assert("cron"@.len() == 4);
    assert("interval"@ != "cron"@);
}

/// Whether the task must run now: it is active, and its next-due time is
/// absent or not after `now`.
pub open spec fn is_due_spec(task: ScheduledTask, now: Seq<char>) -> bool {
    task.status@ == "active"@ && match task.next_run {
        Some(nr) => seq_le(nr@, now),
        None => true,
    }
}

/// Whether a task is due for execution at `now`, where instants are
/// RFC 3339 texts compared lexicographically.
pub fn is_task_due(task: &ScheduledTask, now: &str) -> (r: bool)
    ensures
        r == is_due_spec(*task, now@),
{
    if !str_eq(task.status.as_str(), "active") {
        return false;
    }
    match &task.next_run {
        Some(nr) => str_le(nr.as_str(), now),
        None => true,
    }
}

/// The status a task carries after an execution attempt.
pub fn determine_task_status(success: bool, is_once: bool) -> (r: &'static str)
    ensures
        r@ == if !success {
            "failed"@
        } else if is_once {
            "completed"@
        } else {
            "active"@
        },
{
    if !success {
        "failed"
    } else if is_once {
        "completed"
    } else {
        "active"
    }
}

/// Whether a schedule kind is one of the three the engine knows.
pub fn is_valid_schedule_type(schedule_type: &str) -> (r: bool)
    ensures
        r == (schedule_type@ == "cron"@ || schedule_type@ == "interval"@ || schedule_type@
            == "once"@),
{
    str_eq(schedule_type, "cron") || str_eq(schedule_type, "interval") || str_eq(
        schedule_type,
        "once",
    )
}

/// How a duration reads in a log line: milliseconds below one second,
/// whole seconds below one minute, whole minutes above.
pub open spec fn format_duration_spec(ms: int) -> Seq<char> {
    if ms < 1000 {
        crate::text::dec_str_i64(ms) + "ms"@
    } else if ms < 60000 {
        crate::text::dec_str_i64(ms / 1000) + "s"@
    } else {
        crate::text::dec_str_i64(ms / 60000) + "m"@
    }
}

/// Render a duration for logging.
pub fn format_duration(duration_ms: i64) -> (r: String)
    ensures
        r@ == format_duration_spec(duration_ms as int),
{
    if duration_ms < 1000 {
        let mut s = crate::text::i64_to_string(duration_ms);
        s.append("ms");
        s
    } else if duration_ms < 60000 {
        let mut s = crate::text::i64_to_string(duration_ms / 1000);
        s.append("s");
        s
    } else {
        let mut s = crate::text::i64_to_string(duration_ms / 60000);
        s.append("m");
        s
    }
}

/// The phases of the scheduler loop.
#[derive(Debug, Clone, Copy, PartialEq, Eq, Structural)]
pub enum SchedulerPhase {
    Idle,
    Polling,
    Dispatching,
    ShuttingDown,
}

/// The scheduler's owned state: its tunables, its phase, and how many
/// executions are in flight. The store, the clock and the subprocess
/// runner stay outside; the loop around this state feeds events in and
/// performs the actions decided here.
#[derive(Debug, Clone)]
pub struct TaskScheduler {
    pub poll_interval_ms: u64,
    pub task_timeout_ms: u64,
    pub max_concurrent_tasks: usize,
    pub in_flight: usize,
    pub phase: SchedulerPhase,
}

/// A guarded slot acquisition (`true`) or a completion (`false`), as it
/// changes the in-flight count under a ceiling.
pub open spec fn slots_step(count: int, max: int, acquire: bool) -> int {
    if acquire {
        if count < max {
            count + 1
        } else {
            count
        }
    } else {
        if count > 0 {
            count - 1
        } else {
            count
        }
    }
}

/// The in-flight count after a sequence of acquisitions and completions.
pub open spec fn slots_run(count: int, max: int, events: Seq<bool>) -> int
    decreases events.len(),
{
    if events.len() == 0 {
        count
    } else {
        slots_run(slots_step(count, max, events[0]), max, events.skip(1))
    }
}

/// Under a concurrency ceiling, no interleaving of guarded dispatches
/// and completions ever drives the number of simultaneous executions
/// above the ceiling, nor below zero.
pub proof fn lemma_concurrency_ceiling(count: int, max: int, events: Seq<bool>)
    requires
        0 <= count <= max,
    ensures
        0 <= slots_run(count, max, events) <= max,
    decreases events.len(),
{
    if events.len() > 0 {
        lemma_concurrency_ceiling(slots_step(count, max, events[0]), max, events.skip(1));
    }
}

impl TaskScheduler {
    /// The state's invariant: the in-flight count never passes the
    /// ceiling, and the ceiling admits at least one execution.
    pub open spec fn wf(&self) -> bool {
        self.in_flight <= self.max_concurrent_tasks && self.max_concurrent_tasks >= 1
    }

    /// A scheduler at rest, with nothing in flight.
    pub fn new(poll_interval_ms: u64, task_timeout_ms: u64, max_concurrent_tasks: usize) -> (r:
        TaskScheduler)
        requires
            max_concurrent_tasks >= 1,
        ensures
            r.wf(),
            r.poll_interval_ms == poll_interval_ms,
            r.task_timeout_ms == task_timeout_ms,
            r.max_concurrent_tasks == max_concurrent_tasks,
            r.in_flight == 0,
            r.phase == SchedulerPhase::Idle,
    {
        TaskScheduler {
            poll_interval_ms,
            task_timeout_ms,
            max_concurrent_tasks,
            in_flight: 0,
            phase: SchedulerPhase::Idle,
        }
    }

    /// One tick of the poll timer: an idle scheduler begins polling and
    /// asks for the due tasks; any other phase ignores the tick.
    pub fn on_tick(&mut self) -> (poll: bool)
        ensures
            poll == (old(self).phase == SchedulerPhase::Idle),
            final (self).phase == if poll {
                SchedulerPhase::Polling
            } else {
                old(self).phase
            },
            final (self).in_flight == old(self).in_flight,
            final (self).max_concurrent_tasks == old(self).max_concurrent_tasks,
            final (self).poll_interval_ms == old(self).poll_interval_ms,
            final (self).task_timeout_ms == old(self).task_timeout_ms,
    {
        if self.phase == SchedulerPhase::Idle {
            self.phase = SchedulerPhase::Polling;
            true
        } else {
            false
        }
    }

    /// The due tasks arrived: an empty batch ends the cycle at once,
    /// anything else moves to dispatching.
    pub fn on_due_tasks_loaded(&mut self, due_count: usize)
        requires
            old(self).phase == SchedulerPhase::Polling,
        ensures
            final (self).phase == if due_count == 0 {
                SchedulerPhase::Idle
            } else {
                SchedulerPhase::Dispatching
            },
            final (self).in_flight == old(self).in_flight,
            final (self).max_concurrent_tasks == old(self).max_concurrent_tasks,
            final (self).poll_interval_ms == old(self).poll_interval_ms,
            final (self).task_timeout_ms == old(self).task_timeout_ms,
    {
        if due_count == 0 {
            self.phase = SchedulerPhase::Idle;
        } else {
            self.phase = SchedulerPhase::Dispatching;
        }
    }

    /// The dispatch batch has drained: back to rest.
    pub fn on_batch_drained(&mut self)
        requires
            old(self).phase == SchedulerPhase::Dispatching,
            old(self).in_flight == 0,
        ensures
            final (self).phase == SchedulerPhase::Idle,
            final (self).in_flight == old(self).in_flight,
            final (self).max_concurrent_tasks == old(self).max_concurrent_tasks,
            final (self).poll_interval_ms == old(self).poll_interval_ms,
            final (self).task_timeout_ms == old(self).task_timeout_ms,
    {
        self.phase = SchedulerPhase::Idle;
    }

    /// The shutdown signal: reachable from any phase; no new work is
    /// taken from here on, while in-flight executions drain on their own.
    pub fn on_shutdown(&mut self)
        ensures
            final (self).phase == SchedulerPhase::ShuttingDown,
            final (self).in_flight == old(self).in_flight,
            final (self).max_concurrent_tasks == old(self).max_concurrent_tasks,
            final (self).poll_interval_ms == old(self).poll_interval_ms,
            final (self).task_timeout_ms == old(self).task_timeout_ms,
    {
        self.phase = SchedulerPhase::ShuttingDown;
    }

    /// Claim a concurrency slot for one execution; refused when the
    /// ceiling is reached.
    pub fn try_acquire_slot(&mut self) -> (acquired: bool)
        requires
            old(self).wf(),
        ensures
            final (self).wf(),
            acquired == (old(self).in_flight < old(self).max_concurrent_tasks),
            final (self).in_flight == slots_step(
                old(self).in_flight as int,
                old(self).max_concurrent_tasks as int,
                true,
            ),
            final (self).phase == old(self).phase,
            final (self).max_concurrent_tasks == old(self).max_concurrent_tasks,
            final (self).poll_interval_ms == old(self).poll_interval_ms,
            final (self).task_timeout_ms == old(self).task_timeout_ms,
    {
        if self.in_flight < self.max_concurrent_tasks {
            self.in_flight += 1;
            true
        } else {
            false
        }
    }

    /// Give a slot back when an execution completes.
    pub fn release_slot(&mut self)
        requires
            old(self).wf(),
        ensures
            final (self).wf(),
            final (self).in_flight == slots_step(
                old(self).in_flight as int,
                old(self).max_concurrent_tasks as int,
                false,
            ),
            final (self).phase == old(self).phase,
            final (self).max_concurrent_tasks == old(self).max_concurrent_tasks,
            final (self).poll_interval_ms == old(self).poll_interval_ms,
            final (self).task_timeout_ms == old(self).task_timeout_ms,
    {
        if self.in_flight > 0 {
            self.in_flight -= 1;
        }
    }
}

/// Whether a re-fetched task may still be dispatched: only a row that is
/// still present and still `active`.
pub open spec fn should_dispatch_spec(current: Option<ScheduledTask>) -> bool {
    match current {
        Some(t) => t.status@ == "active"@,
        None => false,
    }
}

/// Re-check a task right before dispatch: a task re-fetched from the
/// store runs only if it still exists and is still active.
pub fn should_dispatch(current: &Option<ScheduledTask>) -> (r: bool)
    ensures
        r == should_dispatch_spec(*current),
{
    match current {
        Some(t) => str_eq(t.status.as_str(), "active"),
        None => false,
    }
}

/// A task whose status left `active` between being selected as due and
/// being dispatched fails the re-check: it is not run, so nothing is
/// logged and nothing of its row changes.
pub proof fn lemma_paused_task_not_dispatched(t: ScheduledTask)
    requires
        t.status@ != "active"@,
    ensures
        !should_dispatch_spec(Some(t)),
{
}

/// The session identifier of a scheduled execution.
pub fn scheduled_session_id(task_id: &str) -> (r: String)
    ensures
        r@ == "scheduled_"@ + task_id@,
{
    let mut s = "scheduled_".to_owned();
    s.append(task_id);
    s
}

/// The execution request for one scheduled task: its prompt, its target,
/// a session named after the task, and the background-scheduled origin
/// flags.
pub fn build_scheduled_input(task: &ScheduledTask) -> (r: crate::types::ContainerInput)
    ensures
        r.prompt == task.prompt,
        r.session_id matches Some(s) && s@ == "scheduled_"@ + task.id@,
        r.group_folder == task.group_folder,
        r.chat_jid == task.chat_jid,
        !r.is_main,
        r.is_scheduled_task,
{
    crate::types::ContainerInput {
        prompt: task.prompt.clone(),
        session_id: Some(scheduled_session_id(task.id.as_str())),
        group_folder: task.group_folder.clone(),
        chat_jid: task.chat_jid.clone(),
        is_main: false,
        is_scheduled_task: true,
    }
}

/// The outcome of one execution attempt that was actually made: the
/// parsed output of a subprocess that ran, or a timeout. An
/// infrastructure failure — the sandbox, the request file or the spawn —
/// is no outcome: nothing ran, so nothing is recorded through this type.
#[derive(Debug, Clone)]
pub enum RunOutcome {
    Completed(ContainerOutput),
    TimedOut,
}

/// The label an outcome is logged under: a completed run counts as a
/// success only when its parsed output is success-shaped; an
/// error-shaped output is an execution failure.
pub open spec fn outcome_status(o: RunOutcome) -> Seq<char> {
    match o {
        RunOutcome::Completed(out) => if out.status@ == "success"@ {
            "success"@
        } else {
            "error"@
        },
        RunOutcome::TimedOut => "timeout"@,
    }
}

/// The output record an outcome is logged with: the parsed output
/// itself, or a synthesized timeout-shaped record.
pub open spec fn outcome_view(o: RunOutcome) -> ContainerOutputView {
    match o {
        RunOutcome::Completed(out) => out@,
        RunOutcome::TimedOut => ContainerOutputView {
            status: "timeout"@,
            result: None,
            new_session_id: None,
            error: Some("Task execution timed out"@),
        },
    }
}

/// The text, or nothing's rendering: the empty text.
pub open spec fn opt_or_empty(o: Option<Seq<char>>) -> Seq<char> {
    match o {
        Some(s) => s,
        None => Seq::<char>::empty(),
    }
}

/// What the task's last-result column records: the result of a
/// success-shaped output, the error text of any other.
pub open spec fn last_result_of(v: ContainerOutputView) -> Option<Seq<char>> {
    if v.status == "success"@ {
        v.result
    } else {
        v.error
    }
}

/// The row a task holds after one execution attempt is recorded: its run
/// columns updated; then completed and unscheduled for a one-shot
/// success, rescheduled for a recurring success whose schedule yields a
/// representable next occurrence, and failed — scheduling untouched —
/// for an error-shaped result or a timeout.
pub open spec fn post_run_row(
    o: ScheduledTask,
    nr: ScheduledTask,
    task: ScheduledTask,
    outcome: RunOutcome,
    now: Seq<char>,
    now_ms: int,
) -> bool {
    &&& same_task_core(o, nr)
    &&& view_opt(nr.last_run) == Some(now)
    &&& view_opt(nr.last_result) == last_result_of(outcome_view(outcome))
    &&& if outcome_status(outcome) != "success"@ {
        nr.status@ == "failed"@ && nr.next_run == o.next_run
    } else if task.schedule_type@ == "once"@ {
        nr.status@ == "completed"@ && nr.next_run is None
    } else {
        &&& nr.status == o.status
        &&& match next_run_spec(task.schedule_type@, task.schedule_value@, now_ms) {
            None => nr.next_run == o.next_run,
            Some(nt) => if 0 <= nt <= MAX_SCHEDULE_INSTANT_MS as int {
                view_opt(nr.next_run) == Some(rfc3339_of(nt))
            } else {
                nr.next_run == o.next_run || view_opt(nr.next_run) == Some(rfc3339_of(nt))
            },
        }
    }
}

/// Record one finished execution attempt in the store: append its run
/// record, update the task's last-run columns, and settle its status and
/// next due time by outcome and schedule kind. Only an attempt that ran
/// — to completion or into its timeout — is recorded here; an
/// infrastructure failure writes no run record, since nothing was
/// attempted.
pub fn apply_run_result(
    store: &mut TaskStore,
    task: &ScheduledTask,
    outcome: RunOutcome,
    now: &str,
    now_ms: i64,
    duration_ms: i64,
)
    ensures
        final (store).logs_view().len() == old(store).logs_view().len() + 1,
        forall|j: int|
            0 <= j < old(store).logs_view().len() ==> final (store).logs_view()[j] == old(
                store,
            ).logs_view()[j],
        final (store).logs_view().last().task_id@ == task.id@,
        final (store).logs_view().last().run_at@ == now@,
        final (store).logs_view().last().duration_ms == duration_ms,
        final (store).logs_view().last().status@ == outcome_status(outcome),
        view_opt(final (store).logs_view().last().result) == Some(
            opt_or_empty(outcome_view(outcome).result),
        ),
        view_opt(final (store).logs_view().last().error) == Some(
            opt_or_empty(outcome_view(outcome).error),
        ),
        final (store).tasks_view().len() == old(store).tasks_view().len(),
        forall|j: int|
            0 <= j < old(store).tasks_view().len() ==> if old(store).tasks_view()[j].id@
                == task.id@ {
                post_run_row(
                    old(store).tasks_view()[j],
                    #[trigger] final (store).tasks_view()[j],
                    *task,
                    outcome,
                    now@,
                    now_ms as int,
                )
            } else {
                final (store).tasks_view()[j] == old(store).tasks_view()[j]
            },
{
    let ghost outcome0 = outcome;
    let (run_status, output): (&str, ContainerOutput) = match outcome {
        RunOutcome::Completed(out) => {
            if str_eq(out.status.as_str(), "success") {
                ("success", out)
            } else {
                ("error", out)
            }
        },
        RunOutcome::TimedOut => (
            "timeout",
            ContainerOutput {
                status: "timeout".to_owned(),
                result: None,
                new_session_id: None,
                error: Some("Task execution timed out".to_owned()),
            },
        ),
    };
    proof {
        assert(output@ == outcome_view(outcome0));
        assert(run_status@ == outcome_status(outcome0));
    }
    let log = TaskRunLog {
        task_id: task.id.clone(),
        run_at: now.to_owned(),
        duration_ms,
        status: run_status.to_owned(),
        result: Some(
            match &output.result {
                Some(r) => r.clone(),
                None => String::new(),
            },
        ),
        error: Some(
            match &output.error {
                Some(e) => e.clone(),
                None => String::new(),
            },
        ),
    };
    store.append_run_log(log);
    let ghost tasks0 = store.tasks_view();
    let last_result = if str_eq(output.status.as_str(), "success") {
        clone_opt_string(&output.result)
    } else {
        clone_opt_string(&output.error)
    };
    proof {
        assert(view_opt(last_result) == last_result_of(outcome_view(outcome0)));
    }
    store.update_last_run(task.id.as_str(), now, &last_result);
    let ghost tasks1 = store.tasks_view();
    if str_eq(run_status, "success") {
        if str_eq(task.schedule_type.as_str(), "once") {
            store.mark_completed(task.id.as_str());
        } else {
            match calculate_next_run_string(task, now_ms) {
                Some(next) => {
                    store.update_next_run(task.id.as_str(), next.as_str());
                },
                None => {},
            }
        }
    } else {
        store.mark_failed(task.id.as_str());
    }
    proof {
        assert forall|j: int|
            0 <= j < tasks0.len() implies (if tasks0[j].id@ == task.id@ {
            post_run_row(
                tasks0[j],
                #[trigger] final (store).tasks_view()[j],
                *task,
                outcome0,
                now@,
                now_ms as int,
            )
        } else {
            final (store).tasks_view()[j] == tasks0[j]
        }) by {
            if tasks0[j].id@ == task.id@ {
                assert(crate::db::last_run_updated(
                    tasks0[j],
                    tasks1[j],
                    now@,
                    view_opt(last_result),
                ));
            } else {
                assert(tasks1[j] == tasks0[j]);
            }
        }
    }
}

/// A one-shot task that just ran successfully is completed and carries
/// no next due time, whatever row it started from: its next-due value is
/// cleared, never set, by this path.
pub proof fn lemma_once_task_completed(
    o: ScheduledTask,
    nr: ScheduledTask,
    task: ScheduledTask,
    outcome: RunOutcome,
    now: Seq<char>,
    now_ms: int,
)
    requires
        post_run_row(o, nr, task, outcome, now, now_ms),
        outcome_status(outcome) == "success"@,
        task.schedule_type@ == "once"@,
    ensures
        nr.status@ == "completed"@,
        nr.next_run is None,
{
}

/// A run that came back with an error-shaped result is an execution
/// failure: it is logged under `error`, the task is marked failed, and
/// its scheduling is left alone.
pub proof fn lemma_error_result_marks_failed(
    o: ScheduledTask,
    nr: ScheduledTask,
    task: ScheduledTask,
    out: ContainerOutput,
    now: Seq<char>,
    now_ms: int,
)
    requires
        post_run_row(o, nr, task, RunOutcome::Completed(out), now, now_ms),
        out.status@ != "success"@,
    ensures
        outcome_status(RunOutcome::Completed(out)) == "error"@,
        nr.status@ == "failed"@,
        nr.next_run == o.next_run,
{
    reveal_strlit("error");
    reveal_strlit("success");
    assert("error"@.len() == 5);
    assert("success"@.len() == 7);
    assert("error"@ != "success"@);
}

/// A recurring task whose run succeeded and whose schedule yields a
/// representable next occurrence is rescheduled to exactly that
/// occurrence's rendering.
pub proof fn lemma_success_reschedules(
    o: ScheduledTask,
    nr: ScheduledTask,
    task: ScheduledTask,
    outcome: RunOutcome,
    now: Seq<char>,
    now_ms: int,
    nt: int,
)
    requires
        post_run_row(o, nr, task, outcome, now, now_ms),
        outcome_status(outcome) == "success"@,
        task.schedule_type@ != "once"@,
        next_run_spec(task.schedule_type@, task.schedule_value@, now_ms) == Some(nt),
        0 <= nt <= MAX_SCHEDULE_INSTANT_MS as int,
    ensures
        view_opt(nr.next_run) == Some(rfc3339_of(nt)),
        nr.status == o.status,
{
}

} // verus!
