//! What the relay from the database's notification channel to the message
//! queue does with each notification.

use vstd::prelude::*;
use crate::json::{JsonValue, field_of, find_field};
use crate::text::str_eq;

verus! {

/// The channel whose notifications are relayed.
pub const INBOX_CHANNEL: &'static str = "inbox_event";

/// A relayed message: the queue topic and the payload to publish under it.
#[derive(Debug, PartialEq)]
pub struct Envelope {
    pub topic: String,
    pub payload: JsonValue,
}

/// What to do with one notification.
#[derive(Debug, PartialEq)]
pub enum NotificationAction {
    /// Publish the payload under the topic.
    Publish(Envelope),
    /// The payload is not an envelope: report it and go on.
    Malformed,
    /// The notification came on another channel.
    Ignore,
}

/// The envelope that a payload value holds: an object with a string `topic`
/// and a `payload` of any shape, or a pair written as a two-element array.
pub open spec fn envelope_of(v: JsonValue) -> Option<Envelope> {
    match v {
        JsonValue::Object(entries) => match field_of(entries@, "topic"@) {
            Some(JsonValue::Str(topic)) => match field_of(entries@, "payload"@) {
                Some(payload) => Some(Envelope { topic, payload }),
                None => None,
            },
            _ => None,
        },
        JsonValue::Array(items) => if items@.len() == 2 && items@[0] is Str {
            Some(Envelope { topic: items@[0]->Str_0, payload: items@[1] })
        } else {
            None
        },
        _ => None,
    }
}

/// What a notification on `channel` calls for, given its payload read as a
/// value (nothing when the text is not one).
pub open spec fn action_for(channel: Seq<char>, payload: Option<JsonValue>) -> NotificationAction {
    if channel != INBOX_CHANNEL@ {
        NotificationAction::Ignore
    } else {
        match payload {
            Some(v) => match envelope_of(v) {
                Some(e) => NotificationAction::Publish(e),
                None => NotificationAction::Malformed,
            },
            None => NotificationAction::Malformed,
        }
    }
}

/// Reads an envelope out of a payload value.
pub fn decode_envelope(v: JsonValue) -> (r: Option<Envelope>)
    ensures
        r == envelope_of(v),
{
    match v {
        JsonValue::Object(mut entries) => {
            let ghost all = entries@;
            let t = match find_field(&entries, "topic") {
                Some(t) => t,
                None => {
                    return None;
                },
            };
            if !matches!(entries[t].1, JsonValue::Str(_)) {
                return None;
            }
            let p = match find_field(&entries, "payload") {
                Some(p) => p,
                None => {
                    return None;
                },
            };
            proof {
                reveal_strlit("topic");
                reveal_strlit("payload");
                assert("topic"@.len() != "payload"@.len());
                assert(t != p);
            }
            let (first, second) = if t < p {
                let second = entries.remove(p);
                let first = entries.remove(t);
                (first, second)
            } else {
                let first = entries.remove(t);
                let second = entries.remove(p);
                (first, second)
            };
            proof {
                assert(first == all[t as int]);
                assert(second == all[p as int]);
            }
            match first.1 {
                JsonValue::Str(topic) => Some(Envelope { topic, payload: second.1 }),
                _ => None,
            }
        },
        JsonValue::Array(mut items) => {
            if items.len() != 2 {
                return None;
            }
            if !matches!(items[0], JsonValue::Str(_)) {
                return None;
            }
            let ghost all = items@;
            let payload = items.pop().unwrap();
            let first = items.pop().unwrap();
            proof {
                assert(payload == all[1]);
                assert(first == all[0]);
            }
            match first {
                JsonValue::Str(topic) => Some(Envelope { topic, payload }),
                _ => None,
            }
        },
        _ => None,
    }
}

/// Decides what to do with a notification on `channel` whose payload, read
/// as a value, is `payload` (nothing when the text is not a value).
pub fn on_notification(channel: &str, payload: Option<JsonValue>) -> (r: NotificationAction)
    ensures
        r == action_for(channel@, payload),
{
    if !str_eq(channel, INBOX_CHANNEL) {
        return NotificationAction::Ignore;
    }
    match payload {
        Some(v) => match decode_envelope(v) {
            Some(e) => NotificationAction::Publish(e),
            None => NotificationAction::Malformed,
        },
        None => NotificationAction::Malformed,
    }
}

} // verus!
