//! Channels, the places where messages between users are sent.

use vstd::prelude::*;

verus! {

/// Main structure for channels.
#[derive(Debug, Clone, Copy)]
pub enum Channel {
    /// Direct message channel between one or two users.
    DirectMessage {
        /// Unique identifier
        uuid: u128,
        /// Ids of the users in this channel.
        ///
        /// If both ids are equal, this channel is a direct message from a
        /// user to him/herself.
        users: (u128, u128),
    },
}

impl Channel {
    /// The unique id of the channel.
    pub open spec fn spec_uuid(&self) -> u128 {
        match self {
            Channel::DirectMessage { uuid, .. } => *uuid,
        }
    }

    /// The pair of user ids the channel refers to.
    pub open spec fn spec_users(&self) -> (u128, u128) {
        match self {
            Channel::DirectMessage { users, .. } => *users,
        }
    }

    /// Returns the unique id of the channel.
    #[verifier::when_used_as_spec(spec_uuid)]
    pub fn uuid(&self) -> (r: u128)
        ensures
            r == self.spec_uuid(),
    {
        match self {
            Channel::DirectMessage { uuid, .. } => *uuid,
        }
    }

    /// Creates a new direct message channel with a fresh unique id.
    pub fn new_direct_message(user1: u128, user2: u128) -> (r: Self)
        ensures
            r.spec_users() == (user1, user2),
    {
        Channel::DirectMessage { uuid: crate::model::fresh_uuid(), users: (user1, user2) }
    }
}

} // verus!
