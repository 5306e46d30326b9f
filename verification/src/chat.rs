//! Player chat in multiplayer rooms: cleaning message text and keeping a
//! bounded history.

use vstd::prelude::*;
use crate::protocol::MultiplayerChatMessage;
use crate::text::{chars_of, is_control, is_control_char, string_of, sub_chars, trim, trim_chars};

verus! {

pub const MULTIPLAYER_CHAT_TEXT_LIMIT: usize = 280;

pub const MULTIPLAYER_CHAT_HISTORY_LIMIT: usize = 100;

/// The text without its control characters.
pub open spec fn without_controls(s: Seq<char>) -> Seq<char> {
    s.filter(|c: char| !is_control_char(c))
}

/// A chat message as stored: control characters removed, trimmed, at most
/// 280 characters; `None` when nothing is left.
pub open spec fn spec_sanitize_chat_text(text: Seq<char>) -> Option<Seq<char>> {
    let t = trim(without_controls(text));
    if t.len() == 0 {
        None
    } else if t.len() > MULTIPLAYER_CHAT_TEXT_LIMIT {
        Some(t.subrange(0, MULTIPLAYER_CHAT_TEXT_LIMIT as int))
    } else {
        Some(t)
    }
}

pub fn sanitize_multiplayer_chat_text(text: &str) -> (r: Result<String, String>)
    ensures
        r matches Ok(t) ==> spec_sanitize_chat_text(text@) == Some(t@),
        r matches Err(m) ==> spec_sanitize_chat_text(text@) is None && m@
            == "Chat message cannot be empty"@,
{
    let v = chars_of(text);
    let ghost keep = |c: char| !is_control_char(c);
    let mut cleaned: Vec<char> = Vec::new();
    let mut i: usize = 0;
    while i < v.len()
        invariant
            i <= v.len(),
            keep == (|c: char| !is_control_char(c)),
            cleaned@ == v@.subrange(0, i as int).filter(keep),
        decreases v.len() - i,
    {
        let c = v[i];
        proof {
            assert(v@.subrange(0, i + 1) =~= v@.subrange(0, i as int).push(c));
            v@.subrange(0, i as int).lemma_filter_push(c, keep);
        }
        if !is_control(c) {
            cleaned.push(c);
        }
        i += 1;
    }
    assert(v@.subrange(0, v.len() as int) =~= v@);
    let t = trim_chars(&cleaned);
    if t.len() == 0 {
        return Err("Chat message cannot be empty".to_string());
    }
    if t.len() > MULTIPLAYER_CHAT_TEXT_LIMIT {
        let head = sub_chars(&t, 0, MULTIPLAYER_CHAT_TEXT_LIMIT);
        Ok(string_of(&head))
    } else {
        Ok(string_of(&t))
    }
}

/// The latest `limit` entries of a history.
pub open spec fn keep_latest<A>(s: Seq<A>, limit: nat) -> Seq<A> {
    if s.len() > limit {
        s.subrange(s.len() - limit, s.len() as int)
    } else {
        s
    }
}

/// Appends a message to a room's chat history, dropping the oldest
/// messages beyond the last hundred. Appending many messages this way
/// keeps the latest hundred of all of them (`lemma_chat_history_keeps_latest`).
pub fn push_chat_message(history: &mut Vec<MultiplayerChatMessage>, message: MultiplayerChatMessage)
    ensures
        final(history)@ == keep_latest(
            old(history)@.push(message),
            MULTIPLAYER_CHAT_HISTORY_LIMIT as nat,
        ),
{
    history.push(message);
    let ghost all = history@;
    while history.len() > MULTIPLAYER_CHAT_HISTORY_LIMIT
        invariant
            all.len() > MULTIPLAYER_CHAT_HISTORY_LIMIT ==> history@.len()
                >= MULTIPLAYER_CHAT_HISTORY_LIMIT,
            all.len() <= MULTIPLAYER_CHAT_HISTORY_LIMIT ==> history@ == all,
            all.len() >= history@.len(),
            history@ == all.subrange(all.len() - history@.len(), all.len() as int),
        decreases history.len(),
    {
        history.remove(0);
        assert(history@ =~= all.subrange(all.len() - history@.len(), all.len() as int));
    }
    assert(history@ =~= keep_latest(all, MULTIPLAYER_CHAT_HISTORY_LIMIT as nat));
}

/// The history never holds more than a hundred messages, and the newest
/// message is always kept.
pub proof fn lemma_chat_history_bounded(
    history: Seq<MultiplayerChatMessage>,
    message: MultiplayerChatMessage,
)
    ensures
        keep_latest(history.push(message), MULTIPLAYER_CHAT_HISTORY_LIMIT as nat).len()
            <= MULTIPLAYER_CHAT_HISTORY_LIMIT,
        keep_latest(history.push(message), MULTIPLAYER_CHAT_HISTORY_LIMIT as nat).last()
            == message,
{
}


/// A history after each of `messages` was appended in turn, capped at
/// `limit` after every message.
pub open spec fn push_all_capped<A>(history: Seq<A>, messages: Seq<A>, limit: nat) -> Seq<A>
    decreases messages.len(),
{
    if messages.len() == 0 {
        history
    } else {
        keep_latest(push_all_capped(history, messages.drop_last(), limit).push(messages.last()), limit)
    }
}

/// Capping before an append and after it is the same as capping after it.
proof fn lemma_cap_then_push<A>(s: Seq<A>, x: A, limit: nat)
    requires
        limit > 0,
    ensures
        keep_latest(keep_latest(s, limit).push(x), limit) == keep_latest(s.push(x), limit),
{
    if s.len() > limit {
        assert(keep_latest(keep_latest(s, limit).push(x), limit) =~= keep_latest(s.push(x), limit));
    }
}

/// However many messages are sent, one at a time, the history holds the
/// latest hundred of all of them (all of them while there are fewer), in
/// the order they were sent: the oldest are dropped first.
pub proof fn lemma_chat_history_keeps_latest(
    history: Seq<MultiplayerChatMessage>,
    messages: Seq<MultiplayerChatMessage>,
)
    requires
        history.len() <= MULTIPLAYER_CHAT_HISTORY_LIMIT,
    ensures
        push_all_capped(history, messages, MULTIPLAYER_CHAT_HISTORY_LIMIT as nat) == keep_latest(
            history + messages,
            MULTIPLAYER_CHAT_HISTORY_LIMIT as nat,
        ),
    decreases messages.len(),
{
    let limit = MULTIPLAYER_CHAT_HISTORY_LIMIT as nat;
    if messages.len() == 0 {
        assert(history + messages =~= history);
    } else {
        let init = messages.drop_last();
        lemma_chat_history_keeps_latest(history, init);
        lemma_cap_then_push(history + init, messages.last(), limit);
        assert((history + init).push(messages.last()) =~= history + messages);
    }
}

} // verus!
