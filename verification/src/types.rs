//! Core data types of the scheduled execution engine.

use vstd::prelude::*;

verus! {

/// A chat group registered with the assistant.
#[derive(Debug, Clone)]
pub struct RegisteredGroup {
    pub name: String,
    pub folder: String,
    pub trigger: String,
    pub added_at: String,
}

/// A key-to-value session table with unique keys.
#[derive(Debug, Clone)]
pub struct Session(pub Vec<(String, String)>);

/// Whether `entries` holds a pair whose key reads `k`.
pub open spec fn has_key(entries: Seq<(String, String)>, k: Seq<char>) -> bool {
    exists|j: int| 0 <= j < entries.len() && entries[j].0@ == k
}

/// The value stored under the first pair whose key reads `k`.
pub open spec fn lookup(entries: Seq<(String, String)>, k: Seq<char>) -> Option<Seq<char>>
    decreases entries.len(),
{
    if entries.len() == 0 {
        None
    } else if entries[0].0@ == k {
        Some(entries[0].1@)
    } else {
        lookup(entries.skip(1), k)
    }
}

proof fn lemma_lookup_at(entries: Seq<(String, String)>, k: Seq<char>, i: int)
    requires
        0 <= i < entries.len(),
        forall|j: int| 0 <= j < i ==> entries[j].0@ != k,
        entries[i].0@ == k,
    ensures
        lookup(entries, k) == Some(entries[i].1@),
    decreases i,
{
    if i > 0 {
        lemma_lookup_at(entries.skip(1), k, i - 1);
        assert(entries.skip(1)[i - 1] == entries[i]);
    }
}

proof fn lemma_lookup_push(entries: Seq<(String, String)>, k: Seq<char>, p: (String, String))
    requires
        forall|j: int| 0 <= j < entries.len() ==> entries[j].0@ != k,
        p.0@ == k,
    ensures
        lookup(entries.push(p), k) == Some(p.1@),
    decreases entries.len(),
{
    if entries.len() == 0 {
        assert(entries.push(p)[0] == p);
    } else {
        lemma_lookup_push(entries.skip(1), k, p);
        assert(entries.push(p).skip(1) =~= entries.skip(1).push(p));
        assert(entries.push(p)[0] == entries[0]);
    }
}

/// Whether no two pairs of `entries` share a key.
pub open spec fn keys_unique(entries: Seq<(String, String)>) -> bool {
    forall|i: int, j: int|
        0 <= i < j < entries.len() ==> entries[i].0@ != entries[j].0@
}

impl Session {
    /// Whether the table's keys are pairwise distinct.
    pub open spec fn wf(&self) -> bool {
        keys_unique(self.0@)
    }

    /// An empty session table.
    pub fn new() -> (r: Session)
        ensures
            r.wf(),
            r.0@.len() == 0,
    {
        Session(Vec::new())
    }

    /// The number of keys stored.
    pub fn len(&self) -> (r: usize)
        ensures
            r == self.0@.len(),
    {
        self.0.len()
    }

    /// Store `v` under `k`, replacing any value the key already has.
    pub fn insert(&mut self, k: String, v: String)
        requires
            old(self).wf(),
        ensures
            final (self).wf(),
            has_key(final (self).0@, k@),
            lookup(final (self).0@, k@) == Some(v@),
            final (self).0@.len() == if has_key(old(self).0@, k@) {
                old(self).0@.len() as int
            } else {
                old(self).0@.len() + 1 as int
            },
    {
        let n = self.0.len();
        let mut i: usize = 0;
        while i < n
            invariant
                0 <= i <= n,
                n == self.0@.len(),
                self.0@ == old(self).0@,
                self.wf(),
                forall|j: int| 0 <= j < i ==> self.0@[j].0@ != k@,
            decreases n - i,
        {
            if crate::text::str_eq(self.0[i].0.as_str(), k.as_str()) {
                let ghost entries0 = self.0@;
                proof {
                    assert(entries0[i as int].0@ == k@);
                    assert(has_key(entries0, k@));
                }
                self.0.set(i, (k, v));
                proof {
                    assert(self.0@[i as int].0@ == k@);
                    assert(has_key(self.0@, k@));
                    assert forall|j: int| 0 <= j < i implies self.0@[j].0@ != k@ by {
                        assert(self.0@[j] == entries0[j]);
                    }
                    lemma_lookup_at(self.0@, k@, i as int);
                    assert forall|a: int, b: int|
                        0 <= a < b < self.0@.len() implies self.0@[a].0@ != self.0@[b].0@ by {
                        assert(self.0@[a].0@ == entries0[a].0@);
                        assert(self.0@[b].0@ == entries0[b].0@);
                    }
                }
                return ;
            }
            i += 1;
        }
        proof {
            lemma_lookup_push(self.0@, k@, (k, v));
        }
        self.0.push((k, v));
        proof {
            assert(!has_key(old(self).0@, k@));
            assert(self.0@[self.0@.len() - 1].0@ == k@);
            assert(has_key(self.0@, k@));
            assert forall|a: int, b: int|
                0 <= a < b < self.0@.len() implies self.0@[a].0@ != self.0@[b].0@ by {}
        }
    }
}

/// A persisted unit of recurring or one-shot work.
#[derive(Debug)]
pub struct ScheduledTask {
    pub id: String,
    pub group_folder: String,
    pub chat_jid: String,
    pub prompt: String,
    pub schedule_type: String,
    pub schedule_value: String,
    pub context_mode: String,
    pub next_run: Option<String>,
    pub last_run: Option<String>,
    pub last_result: Option<String>,
    pub status: String,
    pub created_at: String,
}

/// An immutable record of one execution attempt.
#[derive(Debug)]
pub struct TaskRunLog {
    pub task_id: String,
    pub run_at: String,
    pub duration_ms: i64,
    pub status: String,
    pub result: Option<String>,
    pub error: Option<String>,
}

/// One chat message in the unified shape the front ends hand over.
#[derive(Debug)]
pub struct NewMessage {
    pub id: String,
    pub chat_jid: String,
    pub sender: String,
    pub sender_name: String,
    pub content: String,
    pub timestamp: String,
}

/// Summary data of a chat.
#[derive(Debug)]
pub struct ChatInfo {
    pub jid: String,
    pub name: String,
    pub last_message_time: String,
}

/// The instruction handed to the isolated execution runner.
#[derive(Debug)]
pub struct ContainerInput {
    pub prompt: String,
    pub session_id: Option<String>,
    pub group_folder: String,
    pub chat_jid: String,
    pub is_main: bool,
    pub is_scheduled_task: bool,
}

/// The structured result of one subprocess execution.
#[derive(Debug)]
pub struct ContainerOutput {
    pub status: String,
    pub result: Option<String>,
    pub new_session_id: Option<String>,
    pub error: Option<String>,
}

/// The characters of an optional string.
pub open spec fn view_opt(o: Option<String>) -> Option<Seq<char>> {
    match o {
        Some(s) => Some(s@),
        None => None,
    }
}

/// What a `ContainerOutput` says, field by field.
pub ghost struct ContainerOutputView {
    pub status: Seq<char>,
    pub result: Option<Seq<char>>,
    pub new_session_id: Option<Seq<char>>,
    pub error: Option<Seq<char>>,
}

impl View for ContainerOutput {
    type V = ContainerOutputView;

    open spec fn view(&self) -> ContainerOutputView {
        ContainerOutputView {
            status: self.status@,
            result: view_opt(self.result),
            new_session_id: view_opt(self.new_session_id),
            error: view_opt(self.error),
        }
    }
}

/// A copy of an optional string, equal to the original.
pub fn clone_opt_string(o: &Option<String>) -> (r: Option<String>)
    ensures
        r == *o,
{
    match o {
        Some(s) => Some(s.clone()),
        None => None,
    }
}

impl Clone for ScheduledTask {
    /// An exact copy of the row.
    fn clone(&self) -> (r: Self)
        ensures
            r == *self,
    {
        ScheduledTask {
            id: self.id.clone(),
            group_folder: self.group_folder.clone(),
            chat_jid: self.chat_jid.clone(),
            prompt: self.prompt.clone(),
            schedule_type: self.schedule_type.clone(),
            schedule_value: self.schedule_value.clone(),
            context_mode: self.context_mode.clone(),
            next_run: clone_opt_string(&self.next_run),
            last_run: clone_opt_string(&self.last_run),
            last_result: clone_opt_string(&self.last_result),
            status: self.status.clone(),
            created_at: self.created_at.clone(),
        }
    }
}

impl Clone for TaskRunLog {
    /// An exact copy of the record.
    fn clone(&self) -> (r: Self)
        ensures
            r == *self,
    {
        TaskRunLog {
            task_id: self.task_id.clone(),
            run_at: self.run_at.clone(),
            duration_ms: self.duration_ms,
            status: self.status.clone(),
            result: clone_opt_string(&self.result),
            error: clone_opt_string(&self.error),
        }
    }
}

impl Clone for ContainerOutput {
    /// An exact copy of the result.
    fn clone(&self) -> (r: Self)
        ensures
            r == *self,
    {
        ContainerOutput {
            status: self.status.clone(),
            result: clone_opt_string(&self.result),
            new_session_id: clone_opt_string(&self.new_session_id),
            error: clone_opt_string(&self.error),
        }
    }
}

impl Clone for ContainerInput {
    /// An exact copy of the instruction.
    fn clone(&self) -> (r: Self)
        ensures
            r == *self,
    {
        ContainerInput {
            prompt: self.prompt.clone(),
            session_id: clone_opt_string(&self.session_id),
            group_folder: self.group_folder.clone(),
            chat_jid: self.chat_jid.clone(),
            is_main: self.is_main,
            is_scheduled_task: self.is_scheduled_task,
        }
    }
}

impl Clone for NewMessage {
    /// An exact copy of the message.
    fn clone(&self) -> (r: Self)
        ensures
            r == *self,
    {
        NewMessage {
            id: self.id.clone(),
            chat_jid: self.chat_jid.clone(),
            sender: self.sender.clone(),
            sender_name: self.sender_name.clone(),
            content: self.content.clone(),
            timestamp: self.timestamp.clone(),
        }
    }
}

/// Router bookkeeping that deduplicates messages across polls.
#[derive(Debug, Clone)]
pub struct RouterState {
    pub last_timestamp: String,
    pub last_agent_timestamp: Vec<(String, String)>,
}

/// The value stored under the first pair whose key reads like `k`,
/// executably.
pub fn lookup_entry(entries: &Vec<(String, String)>, k: &str) -> (r: Option<String>)
    ensures
        view_opt(r) == lookup(entries@, k@),
{
    let n = entries.len();
    let mut i: usize = 0;
    proof {
        assert(entries@.skip(0) =~= entries@);
    }
    while i < n
        invariant
            0 <= i <= n,
            n == entries@.len(),
            lookup(entries@, k@) == lookup(entries@.skip(i as int), k@),
        decreases n - i,
    {
        if crate::text::str_eq(entries[i].0.as_str(), k) {
            proof {
                assert(entries@.skip(i as int)[0] == entries@[i as int]);
            }
            return Some(entries[i].1.clone());
        }
        proof {
            assert(entries@.skip(i as int)[0] == entries@[i as int]);
            assert(entries@.skip(i as int).skip(1) =~= entries@.skip(i + 1));
        }
        i += 1;
    }
    proof {
        assert(entries@.skip(n as int) =~= Seq::<(String, String)>::empty());
    }
    None
}

/// `entries` with the first pair keyed like `k` replaced by `(k, v)`, or
/// with `(k, v)` appended when no pair carries the key.
pub open spec fn upsert(entries: Seq<(String, String)>, k: String, v: String) -> Seq<
    (String, String),
>
    decreases entries.len(),
{
    if entries.len() == 0 {
        seq![(k, v)]
    } else if entries[0].0@ == k@ {
        seq![(k, v)] + entries.skip(1)
    } else {
        seq![entries[0]] + upsert(entries.skip(1), k, v)
    }
}

proof fn lemma_upsert_found(entries: Seq<(String, String)>, k: String, v: String, i: int)
    requires
        0 <= i < entries.len(),
        forall|j: int| 0 <= j < i ==> entries[j].0@ != k@,
        entries[i].0@ == k@,
    ensures
        upsert(entries, k, v) == entries.take(i) + seq![(k, v)] + entries.skip(i + 1),
    decreases i,
{
    if i == 0 {
        assert(seq![(k, v)] + entries.skip(1) =~= entries.take(0) + seq![(k, v)] + entries.skip(1));
    } else {
        lemma_upsert_found(entries.skip(1), k, v, i - 1);
        assert(entries.skip(1).take(i - 1) =~= entries.take(i).skip(1));
        assert(seq![entries[0]] + (entries.skip(1).take(i - 1) + seq![(k, v)] + entries.skip(1).skip(
            i - 1 + 1,
        )) =~= entries.take(i) + seq![(k, v)] + entries.skip(i + 1));
    }
}

proof fn lemma_upsert_missing(entries: Seq<(String, String)>, k: String, v: String)
    requires
        forall|j: int| 0 <= j < entries.len() ==> entries[j].0@ != k@,
    ensures
        upsert(entries, k, v) == entries.push((k, v)),
    decreases entries.len(),
{
    if entries.len() == 0 {
        assert(seq![(k, v)] =~= entries.push((k, v)));
    } else {
        lemma_upsert_missing(entries.skip(1), k, v);
        assert(seq![entries[0]] + entries.skip(1).push((k, v)) =~= entries.push((k, v)));
    }
}

impl Default for RouterState {
    /// A state that has seen nothing.
    fn default() -> (r: Self)
        ensures
            r.last_timestamp@ == Seq::<char>::empty(),
            r.last_agent_timestamp@.len() == 0,
    {
        RouterState { last_timestamp: String::new(), last_agent_timestamp: Vec::new() }
    }
}

impl RouterState {
    /// Remember a processed message: its timestamp becomes the last one
    /// seen overall and the last one seen for its chat.
    pub fn record(&mut self, msg: &NewMessage)
        ensures
            final (self).last_timestamp == msg.timestamp,
            final (self).last_agent_timestamp@ == upsert(
                old(self).last_agent_timestamp@,
                msg.chat_jid,
                msg.timestamp,
            ),
    {
        self.last_timestamp = msg.timestamp.clone();
        let n = self.last_agent_timestamp.len();
        let mut i: usize = 0;
        while i < n
            invariant
                0 <= i <= n,
                n == self.last_agent_timestamp@.len(),
                self.last_agent_timestamp@ == old(self).last_agent_timestamp@,
                self.last_timestamp == msg.timestamp,
                forall|j: int| 0 <= j < i ==> self.last_agent_timestamp@[j].0@ != msg.chat_jid@,
            decreases n - i,
        {
            if crate::text::str_eq(self.last_agent_timestamp[i].0.as_str(), msg.chat_jid.as_str()) {
                proof {
                    lemma_upsert_found(
                        self.last_agent_timestamp@,
                        msg.chat_jid,
                        msg.timestamp,
                        i as int,
                    );
                }
                self.last_agent_timestamp.set(i, (msg.chat_jid.clone(), msg.timestamp.clone()));
                proof {
                    assert(self.last_agent_timestamp@ =~= old(self).last_agent_timestamp@.take(
                        i as int,
                    ) + seq![(msg.chat_jid, msg.timestamp)] + old(self).last_agent_timestamp@.skip(
                        i + 1,
                    ));
                }
                return ;
            }
            i += 1;
        }
        proof {
            lemma_upsert_missing(self.last_agent_timestamp@, msg.chat_jid, msg.timestamp);
        }
        self.last_agent_timestamp.push((msg.chat_jid.clone(), msg.timestamp.clone()));
        proof {
            assert(self.last_agent_timestamp@ =~= old(self).last_agent_timestamp@.push(
                (msg.chat_jid, msg.timestamp),
            ));
        }
    }
}

} // verus!
