//! The Telegram front end's message-handling decisions.
//!
//! The Bot API, the webhook server and persistence stay outside the
//! library; what stands here are the handler's pure decisions: policy
//! checks, deduplication, chat addressing, and the chunking of outbound
//! text.

use vstd::prelude::*;

use crate::text::dec_str_i64;
use crate::text::find_spec;
use crate::text::find_str;
use crate::text::i64_to_string;
use crate::text::lemma_find_from;
use crate::text::lower_of;
use crate::text::lowercase;
use crate::text::str_eq;
use crate::text::strip_prefix_spec;
use crate::text::strip_prefix_str;
use crate::text::truncate_spec;
use crate::types::NewMessage;
use crate::types::lookup;

verus! {

/// How direct messages are admitted.
#[derive(Debug, Clone, Copy, PartialEq, Eq, Structural)]
pub enum DMPolicy {
    Pairing,
    Allowlist,
    Open,
    Disabled,
}

/// How group chats are admitted.
#[derive(Debug, Clone, Copy, PartialEq, Eq, Structural)]
pub enum GroupPolicy {
    Open,
    Allowlist,
    Disabled,
}

/// The direct-message policy a lower-cased setting names; anything
/// unknown falls back to pairing.
pub open spec fn dm_policy_of(s: Seq<char>) -> DMPolicy {
    if s == "pairing"@ {
        DMPolicy::Pairing
    } else if s == "allowlist"@ {
        DMPolicy::Allowlist
    } else if s == "open"@ {
        DMPolicy::Open
    } else if s == "disabled"@ {
        DMPolicy::Disabled
    } else {
        DMPolicy::Pairing
    }
}

/// The group policy a lower-cased setting names; anything unknown falls
/// back to the allowlist.
pub open spec fn group_policy_of(s: Seq<char>) -> GroupPolicy {
    if s == "open"@ {
        GroupPolicy::Open
    } else if s == "allowlist"@ {
        GroupPolicy::Allowlist
    } else if s == "disabled"@ {
        GroupPolicy::Disabled
    } else {
        GroupPolicy::Allowlist
    }
}

impl DMPolicy {
    /// Parse a policy setting, case-insensitively.
    pub fn from_str(s: &str) -> (r: DMPolicy)
        ensures
            r == dm_policy_of(lower_of(s@)),
    {
        let l = lowercase(s);
        if str_eq(l.as_str(), "pairing") {
            DMPolicy::Pairing
        } else if str_eq(l.as_str(), "allowlist") {
            DMPolicy::Allowlist
        } else if str_eq(l.as_str(), "open") {
            DMPolicy::Open
        } else if str_eq(l.as_str(), "disabled") {
            DMPolicy::Disabled
        } else {
            DMPolicy::Pairing
        }
    }
}

impl GroupPolicy {
    /// Parse a policy setting, case-insensitively.
    pub fn from_str(s: &str) -> (r: GroupPolicy)
        ensures
            r == group_policy_of(lower_of(s@)),
    {
        let l = lowercase(s);
        if str_eq(l.as_str(), "open") {
            GroupPolicy::Open
        } else if str_eq(l.as_str(), "allowlist") {
            GroupPolicy::Allowlist
        } else if str_eq(l.as_str(), "disabled") {
            GroupPolicy::Disabled
        } else {
            GroupPolicy::Allowlist
        }
    }
}

/// One update from the Bot API.
#[derive(Debug, Clone)]
pub struct TelegramUpdate {
    pub update_id: i64,
    pub message: Option<TelegramMessage>,
    pub edited_message: Option<TelegramMessage>,
}

/// A Bot API user.
#[derive(Debug, Clone)]
pub struct TelegramUser {
    pub id: i64,
    pub is_bot: bool,
    pub first_name: String,
    pub last_name: Option<String>,
    pub username: Option<String>,
}

/// A Bot API chat.
#[derive(Debug, Clone)]
pub struct TelegramChat {
    pub id: i64,
    pub chat_type: String,
    pub title: Option<String>,
}

/// A Bot API message.
#[derive(Debug, Clone)]
pub struct TelegramMessage {
    pub message_id: i64,
    pub from: Option<TelegramUser>,
    pub chat: TelegramChat,
    pub date: i64,
    pub text: Option<String>,
}

/// Whether the direct-message policy admits a sender at all.
pub fn check_dm_policy_pure(policy: DMPolicy) -> (r: bool)
    ensures
        r == (policy != DMPolicy::Disabled),
{
    match policy {
        DMPolicy::Disabled => false,
        DMPolicy::Open => true,
        DMPolicy::Allowlist => true,
        DMPolicy::Pairing => true,
    }
}

/// The chat identifier a Telegram chat is addressed by.
pub open spec fn chat_jid_prefix() -> Seq<char> {
    "telegram:group:"@
}

/// The numeric chat identifier inside a Telegram chat identifier, if it
/// is one.
pub fn extract_chat_id_pure(jid: &str) -> (r: Option<String>)
    ensures
        match r {
            Some(id) => strip_prefix_spec(jid@, chat_jid_prefix()) == Some(id@),
            None => strip_prefix_spec(jid@, chat_jid_prefix()) is None,
        },
{
    strip_prefix_str(jid, "telegram:group:")
}

/// Whether a message repeats one already handled: its timestamp is the
/// last seen overall, or the last seen for its chat.
pub open spec fn is_duplicate_spec(
    msg: NewMessage,
    last_timestamp: Seq<char>,
    last_agent: Seq<(String, String)>,
) -> bool {
    last_timestamp == msg.timestamp@ || lookup(last_agent, msg.chat_jid@) == Some(msg.timestamp@)
}

/// Decide whether a message was already handled, from the router state's
/// timestamps.
pub fn is_duplicate_message_pure(
    msg: &NewMessage,
    last_timestamp: &str,
    last_agent_timestamps: &Vec<(String, String)>,
) -> (r: bool)
    ensures
        r == is_duplicate_spec(*msg, last_timestamp@, last_agent_timestamps@),
{
    if str_eq(last_timestamp, msg.timestamp.as_str()) {
        return true;
    }
    match crate::types::lookup_entry(last_agent_timestamps, msg.chat_jid.as_str()) {
        Some(ts) => str_eq(ts.as_str(), msg.timestamp.as_str()),
        None => false,
    }
}

/// Whether the group policy admits a chat: open policy admits all,
/// disabled none, and the allowlist admits a Telegram group identifier
/// whose numeric part — plain or with a leading minus — stands in the
/// list.
pub open spec fn allowed_group_spec(
    chat_jid: Seq<char>,
    policy: GroupPolicy,
    allowed: Seq<String>,
) -> bool {
    match policy {
        GroupPolicy::Disabled => false,
        GroupPolicy::Open => true,
        GroupPolicy::Allowlist => match strip_prefix_spec(chat_jid, chat_jid_prefix()) {
            Some(id) => exists|j: int|
                0 <= j < allowed.len() && (allowed[j]@ == id || allowed[j]@ == seq!['-'] + id),
            None => false,
        },
    }
}

/// Decide whether a chat is admitted under the group policy.
pub fn is_allowed_group_pure(chat_jid: &str, policy: GroupPolicy, allowed_groups: &[String]) -> (r:
    bool)
    ensures
        r == allowed_group_spec(chat_jid@, policy, allowed_groups@),
{
    match policy {
        GroupPolicy::Disabled => false,
        GroupPolicy::Open => true,
        GroupPolicy::Allowlist => {
            let id = match strip_prefix_str(chat_jid, "telegram:group:") {
                Some(id) => id,
                None => {
                    return false;
                },
            };
            let mut neg = "-".to_owned();
            neg.append(id.as_str());
            proof {
                reveal_strlit("-");
                assert("-"@ =~= seq!['-']);
            }
            let n = allowed_groups.len();
            let mut i: usize = 0;
            while i < n
                invariant
                    0 <= i <= n,
                    n == allowed_groups@.len(),
                    policy is Allowlist,
                    strip_prefix_spec(chat_jid@, chat_jid_prefix()) == Some(id@),
                    neg@ == seq!['-'] + id@,
                    forall|j: int|
                        0 <= j < i ==> !(allowed_groups@[j]@ == id@ || allowed_groups@[j]@
                            == seq!['-'] + id@),
                decreases n - i,
            {
                if str_eq(allowed_groups[i].as_str(), id.as_str()) || str_eq(
                    allowed_groups[i].as_str(),
                    neg.as_str(),
                ) {
                    proof {
                        assert(allowed_groups@[i as int]@ == id@ || allowed_groups@[i as int]@
                            == seq!['-'] + id@);
                        assert(exists|j: int|
                            0 <= j < allowed_groups@.len() && (allowed_groups@[j]@ == id@
                                || allowed_groups@[j]@ == seq!['-'] + id@)) by {
                            assert(0 <= i < allowed_groups@.len() && (allowed_groups@[i as int]@
                                == id@ || allowed_groups@[i as int]@ == seq!['-'] + id@));
                        }
                    }
                    return true;
                }
                i += 1;
            }
            false
        },
    }
}

/// A Bot API message in the unified shape the handlers work on: the
/// numeric identifiers rendered as decimal text, the sender named by
/// username before first name, and an absent text as empty.
pub fn parse_telegram_message_pure(msg: &TelegramMessage) -> (r: NewMessage)
    ensures
        r.id@ == dec_str_i64(msg.message_id as int),
        r.chat_jid@ == chat_jid_prefix() + dec_str_i64(msg.chat.id as int),
        r.sender@ == (match msg.from {
            Some(u) => dec_str_i64(u.id as int),
            None => Seq::<char>::empty(),
        }),
        r.sender_name@ == (match msg.from {
            Some(u) => match u.username {
                Some(un) => un@,
                None => u.first_name@,
            },
            None => "Unknown"@,
        }),
        r.content@ == (match msg.text {
            Some(t) => t@,
            None => Seq::<char>::empty(),
        }),
        r.timestamp@ == dec_str_i64(msg.date as int),
{
    let sender = match &msg.from {
        Some(u) => i64_to_string(u.id),
        None => String::new(),
    };
    let sender_name = match &msg.from {
        Some(u) => match &u.username {
            Some(un) => un.clone(),
            None => u.first_name.clone(),
        },
        None => "Unknown".to_owned(),
    };
    let mut chat_jid = "telegram:group:".to_owned();
    let chat_id = i64_to_string(msg.chat.id);
    chat_jid.append(chat_id.as_str());
    let content = match &msg.text {
        Some(t) => t.clone(),
        None => String::new(),
    };
    NewMessage {
        id: i64_to_string(msg.message_id),
        chat_jid,
        sender,
        sender_name,
        content,
        timestamp: i64_to_string(msg.date),
    }
}

/// The text split at blank-line separators, each separator consumed.
pub open spec fn split_paragraphs(t: Seq<char>) -> Seq<Seq<char>>
    decreases t.len(),
{
    match find_spec(t, "\n\n"@) {
        Some(i) => {
            if t.len() == 0 {
                seq![t]
            } else {
                let j = if 0 <= i && i + 2 <= t.len() {
                    i + 2
                } else {
                    t.len() as int
                };
                seq![t.take(j - 2)] + split_paragraphs(t.skip(j))
            }
        },
        None => seq![t],
    }
}

/// One paragraph folded into the chunks built so far: one that would not
/// fit the current chunk beside a separator seals that chunk and opens a
/// new one; one that fits is appended behind a separator.
pub open spec fn chunk_step(
    chunks: Seq<Seq<char>>,
    current: Seq<char>,
    para: Seq<char>,
    limit: int,
) -> (Seq<Seq<char>>, Seq<char>) {
    if current.len() + para.len() + 2 > limit {
        (
            if current.len() > 0 {
                chunks.push(current)
            } else {
                chunks
            },
            para,
        )
    } else {
        (
            chunks,
            if current.len() > 0 {
                current + "\n\n"@ + para
            } else {
                para
            },
        )
    }
}

/// Paragraphs folded left to right into chunks.
pub open spec fn chunk_fold(
    paras: Seq<Seq<char>>,
    limit: int,
    chunks: Seq<Seq<char>>,
    current: Seq<char>,
) -> (Seq<Seq<char>>, Seq<char>)
    decreases paras.len(),
{
    if paras.len() == 0 {
        (chunks, current)
    } else {
        let s = chunk_step(chunks, current, paras[0], limit);
        chunk_fold(paras.skip(1), limit, s.0, s.1)
    }
}

/// The chunks a text is sent as: the text alone when it fits the limit,
/// else its paragraphs packed greedily into chunks, a non-empty last
/// chunk included.
pub open spec fn chunk_text_spec(t: Seq<char>, limit: int) -> Seq<Seq<char>> {
    if t.len() <= limit {
        seq![t]
    } else {
        let f = chunk_fold(
            split_paragraphs(t),
            limit,
            Seq::<Seq<char>>::empty(),
            Seq::<char>::empty(),
        );
        if f.1.len() > 0 {
            f.0.push(f.1)
        } else {
            f.0
        }
    }
}

fn chunk_over(current: &String, para: &str, limit: usize) -> (r: bool)
    ensures
        r == (current@.len() + para@.len() + 2 > limit),
{
    let cl = current.as_str().unicode_len();
    let pl = para.unicode_len();
    match cl.checked_add(pl) {
        Some(s) => match s.checked_add(2) {
            Some(s2) => s2 > limit,
            None => true,
        },
        None => true,
    }
}

/// Split outbound text into chunks the transport accepts: text within
/// the limit goes out as it stands; longer text is packed paragraph by
/// paragraph, each chunk kept within the limit where its paragraphs
/// allow it.
pub fn chunk_text_pure(text: &str, chunk_limit: usize) -> (r: Vec<String>)
    ensures
        r.deep_view() == chunk_text_spec(text@, chunk_limit as int),
{
    let n = text.unicode_len();
    if n <= chunk_limit {
        let mut v: Vec<String> = Vec::new();
        v.push(text.to_owned());
        proof {
            assert(v.deep_view() =~= seq![text@]);
        }
        return v;
    }
    let mut chunks: Vec<String> = Vec::new();
    let mut current: String = String::new();
    let mut pos: usize = 0;
    proof {
        assert(text@.skip(0) =~= text@);
        assert(chunks.deep_view() =~= Seq::<Seq<char>>::empty());
    }
    loop
        invariant
            0 <= pos <= n,
            n == text@.len(),
            chunk_fold(
                split_paragraphs(text@),
                chunk_limit as int,
                Seq::<Seq<char>>::empty(),
                Seq::<char>::empty(),
            ) == chunk_fold(
                split_paragraphs(text@.skip(pos as int)),
                chunk_limit as int,
                chunks.deep_view(),
                current@,
            ),
            n > chunk_limit,
        decreases n - pos,
    {
        let rest = text.substring_char(pos, n);
        proof {
            assert(rest@ =~= text@.skip(pos as int));
            reveal_strlit("\n\n");
        }
        let ghost paras = split_paragraphs(text@.skip(pos as int));
        let ghost c0 = chunks.deep_view();
        let ghost cur0 = current@;
        match find_str(rest, "\n\n") {
            Some(i) => {
                proof {
                    lemma_find_from(rest@, "\n\n"@, 0);
                }
                let para = rest.substring_char(0, i);
                proof {
                    assert(paras.len() > 0 && paras[0] == para@ && paras.skip(1)
                        == split_paragraphs(text@.skip(pos + i + 2))) by {
                        assert(para@ =~= rest@.take(i as int));
                        assert(rest@.skip(i + 2) =~= text@.skip(pos + i + 2));
                        assert(paras[0] =~= para@);
                        assert(paras.skip(1) =~= split_paragraphs(text@.skip(pos + i + 2)));
                    }
                }
                if chunk_over(&current, para, chunk_limit) {
                    if current.as_str().unicode_len() > 0 {
                        chunks.push(current);
                    }
                    current = para.to_owned();
                } else {
                    if current.as_str().unicode_len() > 0 {
                        current.append("\n\n");
                    }
                    current.append(para);
                }
                pos = pos + i + 2;
                proof {
                    let s = chunk_step(c0, cur0, para@, chunk_limit as int);
                    assert(chunks.deep_view() =~= s.0);
                    assert(current@ == s.1);
                    assert(chunk_fold(paras, chunk_limit as int, c0, cur0) == chunk_fold(
                        paras.skip(1),
                        chunk_limit as int,
                        s.0,
                        s.1,
                    ));
                }
            },
            None => {
                let para = rest;
                proof {
                    assert(paras.len() > 0 && paras[0] == para@ && paras.skip(1)
                        == Seq::<Seq<char>>::empty()) by {
                        assert(paras =~= seq![para@]);
                        assert(paras.skip(1) =~= Seq::<Seq<char>>::empty());
                    }
                }
                if chunk_over(&current, para, chunk_limit) {
                    if current.as_str().unicode_len() > 0 {
                        chunks.push(current);
                    }
                    current = para.to_owned();
                } else {
                    if current.as_str().unicode_len() > 0 {
                        current.append("\n\n");
                    }
                    current.append(para);
                }
                proof {
                    let s = chunk_step(c0, cur0, para@, chunk_limit as int);
                    assert(chunks.deep_view() =~= s.0);
                    assert(current@ == s.1);
                    assert(chunk_fold(paras, chunk_limit as int, c0, cur0) == chunk_fold(
                        paras.skip(1),
                        chunk_limit as int,
                        s.0,
                        s.1,
                    ));
                }
                let ghost c1 = chunks.deep_view();
                let ghost cur1 = current@;
                if current.as_str().unicode_len() > 0 {
                    chunks.push(current);
                    proof {
                        assert(chunks.deep_view() =~= c1.push(cur1));
                    }
                }
                return chunks;
            },
        }
    }
}

/// Cut a string down for logging, marking the cut with an ellipsis.
pub fn truncate(s: &str, max_len: usize) -> (r: String)
    ensures
        r@ == truncate_spec(s@, max_len as int),
{
    crate::text::truncate(s, max_len)
}

} // verus!
