//! The events that the gateway streams back, and how one is read from the
//! members of a JSON payload.

use crate::json::{lookup, member, Field, FieldView};
use vstd::prelude::*;
use vstd::string::StringExecFns;

verus! {

/// One event of the response stream. The payload's `type` member selects the
/// variant: `user`, `openclaw` or `system`.
#[derive(Debug, Clone)]
pub enum VoiceEvent {
    /// What the user was heard to say. `confidence` is the bit pattern of an
    /// IEEE-754 double.
    User { text: String, confidence: u64, timestamp: String },
    /// A piece of the assistant's answer; `done` marks the last one.
    Openclaw { text: String, done: bool, timestamp: String },
    /// A status notice.
    System { status: String, message: Option<String>, timestamp: String },
}

/// The mathematical value of a [`VoiceEvent`].
pub enum EventView {
    User { text: Seq<char>, confidence: u64, timestamp: Seq<char> },
    Openclaw { text: Seq<char>, done: bool, timestamp: Seq<char> },
    System { status: Seq<char>, message: Option<Seq<char>>, timestamp: Seq<char> },
}

impl View for VoiceEvent {
    type V = EventView;

    open spec fn view(&self) -> EventView {
        match self {
            VoiceEvent::User { text, confidence, timestamp } => EventView::User {
                text: text@,
                confidence: *confidence,
                timestamp: timestamp@,
            },
            VoiceEvent::Openclaw { text, done, timestamp } => EventView::Openclaw {
                text: text@,
                done: *done,
                timestamp: timestamp@,
            },
            VoiceEvent::System { status, message, timestamp } => EventView::System {
                status: status@,
                message: match message {
                    Some(m) => Some(m@),
                    None => None,
                },
                timestamp: timestamp@,
            },
        }
    }
}

/// The members of a payload that an event is read from.
#[derive(Debug, Clone)]
pub struct Payload {
    /// The member `type`, the discriminator.
    pub kind: Field,
    pub text: Field,
    pub confidence: Field,
    pub done: Field,
    pub status: Field,
    pub message: Field,
    pub timestamp: Field,
}

/// The mathematical value of a [`Payload`].
pub struct PayloadView {
    pub kind: FieldView,
    pub text: FieldView,
    pub confidence: FieldView,
    pub done: FieldView,
    pub status: FieldView,
    pub message: FieldView,
    pub timestamp: FieldView,
}

impl View for Payload {
    type V = PayloadView;

    open spec fn view(&self) -> PayloadView {
        PayloadView {
            kind: self.kind@,
            text: self.text@,
            confidence: self.confidence@,
            done: self.done@,
            status: self.status@,
            message: self.message@,
            timestamp: self.timestamp@,
        }
    }
}

/// The payload members among the members `m` of a JSON object.
pub open spec fn payload_of_members(m: Map<Seq<char>, FieldView>) -> PayloadView {
    PayloadView {
        kind: lookup(m, "type"@),
        text: lookup(m, "text"@),
        confidence: lookup(m, "confidence"@),
        done: lookup(m, "done"@),
        status: lookup(m, "status"@),
        message: lookup(m, "message"@),
        timestamp: lookup(m, "timestamp"@),
    }
}

/// The event that a payload describes, if it describes one: the discriminator
/// is one of the three kinds, the timestamp and the kind's own members are
/// present with the right type. `message` may be absent or `null`.
pub open spec fn event_of(p: PayloadView) -> Option<EventView> {
    if p.kind == FieldView::Text("user"@) {
        match (p.text, p.confidence, p.timestamp) {
            (FieldView::Text(text), FieldView::Number(confidence), FieldView::Text(timestamp)) => Some(
                EventView::User { text, confidence, timestamp },
            ),
            _ => None,
        }
    } else if p.kind == FieldView::Text("openclaw"@) {
        match (p.text, p.done, p.timestamp) {
            (FieldView::Text(text), FieldView::Bool(done), FieldView::Text(timestamp)) => Some(
                EventView::Openclaw { text, done, timestamp },
            ),
            _ => None,
        }
    } else if p.kind == FieldView::Text("system"@) {
        match (p.status, p.message, p.timestamp) {
            (FieldView::Text(status), FieldView::Text(m), FieldView::Text(timestamp)) => Some(
                EventView::System { status, message: Some(m), timestamp },
            ),
            (FieldView::Text(status), FieldView::Missing, FieldView::Text(timestamp)) => Some(
                EventView::System { status, message: None, timestamp },
            ),
            (FieldView::Text(status), FieldView::Null, FieldView::Text(timestamp)) => Some(
                EventView::System { status, message: None, timestamp },
            ),
            _ => None,
        }
    } else {
        None
    }
}

/// Whether `r` is what `expected` says, up to the view.
pub open spec fn decoded_as(r: Option<VoiceEvent>, expected: Option<EventView>) -> bool {
    match r {
        Some(e) => expected == Some(e@),
        None => expected is None,
    }
}

/// Reads the event that `p` describes; `None` where it describes none.
pub fn decode(p: Payload) -> (r: Option<VoiceEvent>)
    ensures
        decoded_as(r, event_of(p@)),
{
    let Payload { kind, text, confidence, done, status, message, timestamp } = p;
    let kind = match kind {
        Field::Text(k) => k,
        _ => return None,
    };
    let timestamp = match timestamp {
        Field::Text(t) => t,
        _ => return None,
    };
    if kind == String::from_str("user") {
        match (text, confidence) {
            (Field::Text(text), Field::Number(confidence)) => Some(
                VoiceEvent::User { text, confidence, timestamp },
            ),
            _ => None,
        }
    } else if kind == String::from_str("openclaw") {
        match (text, done) {
            (Field::Text(text), Field::Bool(done)) => Some(
                VoiceEvent::Openclaw { text, done, timestamp },
            ),
            _ => None,
        }
    } else if kind == String::from_str("system") {
        match (status, message) {
            (Field::Text(status), Field::Text(m)) => Some(
                VoiceEvent::System { status, message: Some(m), timestamp },
            ),
            (Field::Text(status), Field::Missing) => Some(
                VoiceEvent::System { status, message: None, timestamp },
            ),
            (Field::Text(status), Field::Null) => Some(
                VoiceEvent::System { status, message: None, timestamp },
            ),
            _ => None,
        }
    } else {
        None
    }
}

/// Gathers the payload members of a parsed document.
pub(crate) fn read_payload(doc: &serde_json::Value) -> (p: Payload)
    ensures
        p@ == payload_of_members(crate::json::members(*doc)),
{
    Payload {
        kind: member(doc, "type"),
        text: member(doc, "text"),
        confidence: member(doc, "confidence"),
        done: member(doc, "done"),
        status: member(doc, "status"),
        message: member(doc, "message"),
        timestamp: member(doc, "timestamp"),
    }
}

} // verus!
