//! The published unit of the broadcast hub: an immutable typed record.

use vstd::prelude::*;

verus! {

/// What kind of record an event is.  A plain chat post carries `Chat`;
/// the hub's synthetic presence records carry `Join`, `Leave` or `System`.
#[derive(Clone, Copy, Debug, PartialEq, Eq, Structural)]
pub enum EventKind {
    Join,
    Leave,
    Chat,
    System,
}

/// An event as published to every subscriber.  Immutable once published.
#[derive(Debug)]
pub struct Event {
    pub room: String,
    pub text: String,
    /// Unix seconds.
    pub timestamp: i64,
    pub kind: EventKind,
    pub author: String,
}

/// The mathematical content of an [`Event`]: two events with equal models
/// are indistinguishable to every subscriber.
pub ghost struct EventModel {
    pub room: Seq<char>,
    pub text: Seq<char>,
    pub timestamp: int,
    pub kind: EventKind,
    pub author: Seq<char>,
}

impl View for Event {
    type V = EventModel;

    open spec fn view(&self) -> EventModel {
        EventModel {
            room: self.room@,
            text: self.text@,
            timestamp: self.timestamp as int,
            kind: self.kind,
            author: self.author@,
        }
    }
}

impl Clone for Event {
    fn clone(&self) -> (r: Event)
        ensures
            r@ == self@,
    {
        Event {
            room: self.room.clone(),
            text: self.text.clone(),
            timestamp: self.timestamp,
            kind: self.kind,
            author: self.author.clone(),
        }
    }
}

/// The model of a chat event as stamped by the publishing step.
pub open spec fn chat_model(room: Seq<char>, text: Seq<char>, now: int, author: Seq<char>) -> EventModel {
    EventModel { room: room, text: text, timestamp: now, kind: EventKind::Chat, author: author }
}

/// The text of the synthetic join event for `author`.
pub open spec fn join_text(author: Seq<char>) -> Seq<char> {
    author + " joined the room"@
}

/// The model of the synthetic join event emitted on an identity's first post.
pub open spec fn join_model(room: Seq<char>, now: int, author: Seq<char>) -> EventModel {
    EventModel {
        room: room,
        text: join_text(author),
        timestamp: now,
        kind: EventKind::Join,
        author: author,
    }
}

/// The model of a system event: posted to the `"system"` room by `"System"`.
pub open spec fn system_model(text: Seq<char>, now: int) -> EventModel {
    EventModel {
        room: "system"@,
        text: text,
        timestamp: now,
        kind: EventKind::System,
        author: "System"@,
    }
}

/// The text of the system event announcing that an identity was dropped.
pub open spec fn disconnect_text(identity: Seq<char>, reason: Seq<char>) -> Seq<char> {
    "User "@ + identity + " disconnected: "@ + reason
}

/// The text of the system event announcing a newly created room.
pub open spec fn room_created_text(room: Seq<char>) -> Seq<char> {
    "New room created: "@ + room
}

/// Builds the chat event for a post, stamping kind `Chat`.
pub fn make_chat(room: String, text: String, now: i64, author: String) -> (e: Event)
    ensures
        e@ == chat_model(room@, text@, now as int, author@),
{
    Event { room: room, text: text, timestamp: now, kind: EventKind::Chat, author: author }
}

/// Builds the synthetic join event emitted on an identity's first post.
pub fn make_join(room: String, now: i64, author: String) -> (e: Event)
    ensures
        e@ == join_model(room@, now as int, author@),
{
    let mut text = author.clone();
    text.append(" joined the room");
    Event { room: room, text: text, timestamp: now, kind: EventKind::Join, author: author }
}

/// Builds a system event: room `"system"`, author `"System"`.
pub fn make_system(text: String, now: i64) -> (e: Event)
    ensures
        e@ == system_model(text@, now as int),
{
    Event {
        room: String::from_str("system"),
        text: text,
        timestamp: now,
        kind: EventKind::System,
        author: String::from_str("System"),
    }
}

/// Builds the text announcing that `identity` was dropped for `reason`.
pub fn make_disconnect_text(identity: &String, reason: &str) -> (t: String)
    ensures
        t@ == disconnect_text(identity@, reason@),
{
    let mut t = String::from_str("User ");
    t.append(identity.as_str());
    t.append(" disconnected: ");
    t.append(reason);
    t
}

/// Builds the text announcing that `room` was created.
pub fn make_room_created_text(room: &String) -> (t: String)
    ensures
        t@ == room_created_text(room@),
{
    let mut t = String::from_str("New room created: ");
    t.append(room.as_str());
    t
}

} // verus!
