//! The chat template: messages received over the WebSocket are kept in a
//! history bounded to the most recent ones.

use vstd::prelude::*;

use crate::clock::{new_uuid, now_timestamp};

verus! {

/// A message sent by a chat client.
pub struct ChatMessage {
    pub username: String,
    pub message: String,
}

/// A message as kept in the history.
pub struct ChatEntry {
    pub id: String,
    pub username: String,
    pub message: String,
    pub timestamp: i64,
}

/// The reply to a chat message.
pub struct ChatResponse {
    pub ok: bool,
    pub message: Option<String>,
}

/// The number of messages the history keeps.
pub const HISTORY_LIMIT: usize = 100;

/// The history after recording `e`: the entry is appended and, when the
/// history then holds more than the limit, the oldest entry is dropped.
pub open spec fn spec_record(h: Seq<ChatEntry>, e: ChatEntry) -> Seq<ChatEntry> {
    let n = h.push(e);
    if n.len() > HISTORY_LIMIT {
        n.drop_first()
    } else {
        n
    }
}

/// The messages received so far, oldest first, at most `HISTORY_LIMIT`.
pub struct ChatHistory {
    entries: Vec<ChatEntry>,
}

impl View for ChatHistory {
    type V = Seq<ChatEntry>;

    closed spec fn view(&self) -> Seq<ChatEntry> {
        self.entries@
    }
}

impl ChatHistory {
    /// The history holds at most `HISTORY_LIMIT` entries.
    pub closed spec fn wf(&self) -> bool {
        self.entries@.len() <= HISTORY_LIMIT
    }

    /// An empty history.
    pub fn new() -> (h: Self)
        ensures
            h.wf(),
            h@ == Seq::<ChatEntry>::empty(),
    {
        ChatHistory { entries: Vec::new() }
    }

    /// Records an entry, dropping the oldest one when the history is full.
    pub fn record(&mut self, entry: ChatEntry)
        requires
            old(self).wf(),
        ensures
            final(self).wf(),
            final(self)@ == spec_record(old(self)@, entry),
    {
        self.entries.push(entry);
        if self.entries.len() > HISTORY_LIMIT {
            let _oldest = self.entries.remove(0);
            assert(self.entries@ =~= old(self)@.push(entry).drop_first());
        }
    }

    /// The entries, oldest first.
    pub fn entries(&self) -> (r: &Vec<ChatEntry>)
        ensures
            r@ == self@,
    {
        &self.entries
    }
}

/// The history entry for message `msg`, received at `timestamp` under id
/// `id`.
pub fn chat_entry(msg: &ChatMessage, id: String, timestamp: i64) -> (e: ChatEntry)
    ensures
        e.id == id,
        e.username == msg.username,
        e.message == msg.message,
        e.timestamp == timestamp,
{
    ChatEntry {
        id,
        username: msg.username.clone(),
        message: msg.message.clone(),
        timestamp,
    }
}

/// Handles a chat message: records it under a fresh id with the current
/// time and acknowledges it.  The recorded entry is returned too.
pub fn receive_message(history: &mut ChatHistory, msg: ChatMessage) -> (r: (ChatResponse, ChatEntry))
    requires
        old(history).wf(),
    ensures
        final(history).wf(),
        r.0.ok,
        r.0.message matches Some(m) && m@ == "Message received"@,
        r.1.username == msg.username && r.1.message == msg.message,
        r.1.id@.len() == 36,
        final(history)@ == spec_record(
            old(history)@,
            ChatEntry {
                id: r.1.id,
                username: msg.username,
                message: msg.message,
                timestamp: r.1.timestamp,
            },
        ),
{
    let id = new_uuid();
    let timestamp = now_timestamp();
    let entry = chat_entry(&msg, id, timestamp);
    let logged = chat_entry(&msg, entry.id.clone(), timestamp);
    history.record(entry);
    (ChatResponse { ok: true, message: Some("Message received".to_owned()) }, logged)
}

/// Keeping the most recent messages: recording an entry into a history of
/// at most `HISTORY_LIMIT` entries gives the last `HISTORY_LIMIT` (or fewer)
/// of the old entries followed by the new one, and the new entry is always
/// the last.
pub proof fn law_history_keeps_latest(h: Seq<ChatEntry>, e: ChatEntry)
    requires
        h.len() <= HISTORY_LIMIT,
    ensures
        spec_record(h, e).len() <= HISTORY_LIMIT,
        spec_record(h, e).last() == e,
        h.len() < HISTORY_LIMIT ==> spec_record(h, e) == h.push(e),
        h.len() == HISTORY_LIMIT ==> spec_record(h, e) == h.drop_first().push(e),
{
    if h.len() == HISTORY_LIMIT {
        assert(h.push(e).drop_first() =~= h.drop_first().push(e));
    }
}

} // verus!
