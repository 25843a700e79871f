//! The WhatsApp front end's message-handling decisions.
//!
//! Connectivity, polling and persistence stay outside the library; what
//! stands here are the pure decisions the handler makes: deduplication,
//! trigger extraction, chat classification.

use vstd::prelude::*;

use crate::text::find_spec;
use crate::text::has_suffix;
use crate::text::lemma_find_from;
use crate::text::trim_spec;
use crate::text::trim_str;
use crate::text::truncate_spec;
use crate::text::find_str;
use crate::text::str_eq;
use crate::types::NewMessage;
use crate::types::lookup;
use crate::types::lookup_entry;

verus! {

/// What a trigger mention yields: the mention pattern — an at sign and
/// the assistant's name — and the trimmed text after its first
/// occurrence.
pub open spec fn extract_trigger_spec(content: Seq<char>, name: Seq<char>) -> Option<
    (Seq<char>, Seq<char>),
> {
    let pat = seq!['@'] + name;
    match find_spec(content, pat) {
        Some(i) => Some((pat, trim_spec(content.skip(i + pat.len())))),
        None => None,
    }
}

/// Find the assistant's mention in a message and hand back the mention
/// pattern and the trimmed text after it.
pub fn extract_trigger_pure(content: &str, assistant_name: &str) -> (r: Option<(String, String)>)
    ensures
        match r {
            Some(p) => extract_trigger_spec(content@, assistant_name@) == Some((p.0@, p.1@)),
            None => extract_trigger_spec(content@, assistant_name@) is None,
        },
{
    let mut pat = "@".to_owned();
    pat.append(assistant_name);
    proof {
        reveal_strlit("@");
        assert("@"@ =~= seq!['@']);
    }
    match find_str(content, pat.as_str()) {
        Some(idx) => {
            proof {
                lemma_find_from(content@, pat@, 0);
            }
            let n = content.unicode_len();
            let plen = pat.as_str().unicode_len();
            let after = content.substring_char(idx + plen, n);
            proof {
                assert(after@ =~= content@.skip(idx + pat@.len()));
            }
            let c = trim_str(after).to_owned();
            Some((pat, c))
        },
        None => None,
    }
}

/// Whether a message repeats one already handled: its timestamp is the
/// last seen overall, or the last seen for its chat.
pub open spec fn is_duplicate_spec(
    msg: NewMessage,
    last_timestamp: Seq<char>,
    last_agent: Seq<(String, String)>,
) -> bool {
    last_timestamp == msg.timestamp@ || lookup(last_agent, msg.chat_jid@) == Some(msg.timestamp@)
}

/// Decide whether a message was already handled, from the router state's
/// timestamps.
pub fn is_duplicate_message_pure(
    msg: &NewMessage,
    last_timestamp: &str,
    last_agent_timestamps: &Vec<(String, String)>,
) -> (r: bool)
    ensures
        r == is_duplicate_spec(*msg, last_timestamp@, last_agent_timestamps@),
{
    if str_eq(last_timestamp, msg.timestamp.as_str()) {
        return true;
    }
    match lookup_entry(last_agent_timestamps, msg.chat_jid.as_str()) {
        Some(ts) => str_eq(ts.as_str(), msg.timestamp.as_str()),
        None => false,
    }
}

/// Whether a chat identifier names a private chat rather than a group.
pub fn is_private_chat(jid: &str) -> (r: bool)
    ensures
        r == has_suffix(jid@, "@s.whatsapp.net"@),
{
    crate::text::ends_with_str(jid, "@s.whatsapp.net")
}

/// The chat identifier's part before its first at sign, or all of it.
pub open spec fn group_name_spec(jid: Seq<char>) -> Seq<char> {
    match find_spec(jid, seq!['@']) {
        Some(i) => jid.take(i),
        None => jid,
    }
}

/// The group name a chat identifier carries before its at sign.
pub fn get_group_name_from_jid(jid: &str) -> (r: Option<String>)
    ensures
        r matches Some(s) && s@ == group_name_spec(jid@),
{
    proof {
        reveal_strlit("@");
        assert("@"@ =~= seq!['@']);
    }
    match find_str(jid, "@") {
        Some(i) => {
            proof {
                lemma_find_from(jid@, seq!['@'], 0);
            }
            proof {
                assert(jid@.take(i as int) =~= jid@.subrange(0, i as int));
            }
            Some(jid.substring_char(0, i).to_owned())
        },
        None => Some(jid.to_owned()),
    }
}

/// Cut a string down for logging, marking the cut with an ellipsis.
pub fn truncate(s: &str, max_len: usize) -> (r: String)
    ensures
        r@ == truncate_spec(s@, max_len as int),
{
    crate::text::truncate(s, max_len)
}

} // verus!
