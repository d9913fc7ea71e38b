//! The inbound feed of chat events.

use vstd::prelude::*;
use crate::error::ErrorKind;

verus! {

/// A chat event as the feed delivers it: either field may be missing.
#[derive(Clone, Debug, PartialEq, Eq)]
pub struct FeedMessage {
    pub channel_id: Option<String>,
    pub display_name: Option<String>,
}

/// A chat event with all its fields: who wrote, by stable identity key, and
/// under which name.
#[derive(Clone, Debug, PartialEq, Eq)]
pub struct ChatMessage {
    pub channel_id: String,
    pub display_name: String,
}

impl FeedMessage {
    /// Whether no field is missing.
    pub open spec fn complete(&self) -> bool {
        self.channel_id is Some && self.display_name is Some
    }

    /// The event with all its fields, or `MalformedEvent` where one is
    /// missing.
    pub fn validate(self) -> (checked: Result<ChatMessage, ErrorKind>)
        ensures
            match checked {
                Ok(message) => self.channel_id == Some(message.channel_id) && self.display_name
                    == Some(message.display_name),
                Err(kind) => !self.complete() && kind == ErrorKind::MalformedEvent,
            },
    {
        match (self.channel_id, self.display_name) {
            (Some(channel_id), Some(display_name)) => Ok(ChatMessage { channel_id, display_name }),
            _ => Err(ErrorKind::MalformedEvent),
        }
    }
}

} // verus!
