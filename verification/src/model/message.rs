//! Representation of messages.

use vstd::prelude::*;

verus! {

/// Main structure for messages.
#[derive(Debug)]
pub struct Message {
    /// Unique identifier
    pub uuid: u128,

    /// Channel in which this message was sent
    pub channel: u128,

    /// Id of the message sender
    pub author: u128,

    /// Content of the message
    pub content: String,
}

impl Clone for Message {
    fn clone(&self) -> (r: Self)
        ensures
            r == *self,
    {
        Self {
            uuid: self.uuid,
            channel: self.channel,
            author: self.author,
            content: self.content.clone(),
        }
    }
}

impl Message {
    /// Creates a new message with a fresh unique id.
    pub fn new(channel: u128, author: u128, content: String) -> (r: Self)
        ensures
            r.channel == channel,
            r.author == author,
            r.content == content,
    {
        Self { uuid: crate::model::fresh_uuid(), channel, author, content }
    }
}

} // verus!
