//! Databases and information storage.
//!
//! The [`Database`] trait is the single source of truth for users, channels,
//! messages and servers. Every operation is specified against a
//! [`StoreModel`]: four mathematical maps from unique id to entity. The
//! contracts enforce referential integrity: a channel only enters the store
//! while both its users exist, a message only while its author and its
//! channel exist, and deleting a channel deletes every message of that
//! channel with it.

pub mod mock;

use vstd::prelude::*;

use crate::model::channel::Channel;
use crate::model::message::Message;
use crate::model::server::Server;
use crate::model::user::User;

verus! {

/// The reason a store operation failed.
#[derive(Debug, Clone, Copy, PartialEq, Eq)]
pub enum StoreError {
    /// A fetch or a delete referenced an id absent from the store.
    NotFound,

    /// An insert collided with an existing id.
    DuplicateId,

    /// An insert referenced a nonexistent user or channel.
    UnknownReference,
}

/// The mathematical content of a store: one map per entity kind, each keyed
/// by the entity's unique id.
#[verifier::ext_equal]
pub ghost struct StoreModel {
    /// Existing channels
    pub channels: Map<u128, Channel>,

    /// Existing messages
    pub messages: Map<u128, Message>,

    /// Existing users
    pub users: Map<u128, User>,

    /// Existing servers
    pub servers: Map<u128, Server>,
}

impl StoreModel {
    /// The store with nothing in it.
    pub open spec fn empty() -> StoreModel {
        StoreModel {
            channels: Map::empty(),
            messages: Map::empty(),
            users: Map::empty(),
            servers: Map::empty(),
        }
    }
}

/// The ids of the messages of `msgs` that were sent in the channel `channel`.
pub open spec fn messages_of_channel(msgs: Map<u128, Message>, channel: u128) -> Set<u128> {
    msgs.dom().filter(|k: u128| msgs[k].channel == channel)
}

/// What fetching a user returns: the stored user under that id, or
/// `NotFound` where the id is absent. The store is never changed.
pub open spec fn user_fetch_post(m: StoreModel, uuid: u128, r: Result<User, StoreError>) -> bool {
    if m.users.contains_key(uuid) {
        r == Ok::<User, StoreError>(m.users[uuid])
    } else {
        r == Err::<User, StoreError>(StoreError::NotFound)
    }
}

/// What inserting a user does: `DuplicateId` where the id is taken and the
/// store unchanged; otherwise the user is added under its id.
pub open spec fn user_insert_post(
    pre: StoreModel,
    user: User,
    post: StoreModel,
    r: Result<(), StoreError>,
) -> bool {
    if pre.users.contains_key(user.uuid) {
        r == Err::<(), StoreError>(StoreError::DuplicateId) && post == pre
    } else {
        r == Ok::<(), StoreError>(()) && post == (StoreModel {
            users: pre.users.insert(user.uuid, user),
            ..pre
        })
    }
}

/// What deleting a user does: the user leaves the store, or `NotFound` where
/// the id is absent. No cascade: messages sent by the user stay.
pub open spec fn user_delete_post(
    pre: StoreModel,
    uuid: u128,
    post: StoreModel,
    r: Result<(), StoreError>,
) -> bool {
    if pre.users.contains_key(uuid) {
        r == Ok::<(), StoreError>(()) && post == (StoreModel {
            users: pre.users.remove(uuid),
            ..pre
        })
    } else {
        r == Err::<(), StoreError>(StoreError::NotFound) && post == pre
    }
}

/// What fetching a channel returns, as [`user_fetch_post`].
pub open spec fn channel_fetch_post(
    m: StoreModel,
    uuid: u128,
    r: Result<Channel, StoreError>,
) -> bool {
    if m.channels.contains_key(uuid) {
        r == Ok::<Channel, StoreError>(m.channels[uuid])
    } else {
        r == Err::<Channel, StoreError>(StoreError::NotFound)
    }
}

/// What inserting a channel does: `DuplicateId` where the id is taken, then
/// `UnknownReference` where either referenced user is absent; in both cases
/// the store is unchanged. Otherwise the channel is added under its id.
pub open spec fn channel_insert_post(
    pre: StoreModel,
    channel: Channel,
    post: StoreModel,
    r: Result<(), StoreError>,
) -> bool {
    if pre.channels.contains_key(channel.uuid()) {
        r == Err::<(), StoreError>(StoreError::DuplicateId) && post == pre
    } else if !(pre.users.contains_key(channel.spec_users().0) && pre.users.contains_key(
        channel.spec_users().1,
    )) {
        r == Err::<(), StoreError>(StoreError::UnknownReference) && post == pre
    } else {
        r == Ok::<(), StoreError>(()) && post == (StoreModel {
            channels: pre.channels.insert(channel.uuid(), channel),
            ..pre
        })
    }
}

/// What deleting a channel does: `NotFound` where the id is absent and the
/// store unchanged; otherwise the channel leaves the store, and with it, in
/// cascade, every message whose `channel` field equals the deleted id.
pub open spec fn channel_delete_post(
    pre: StoreModel,
    uuid: u128,
    post: StoreModel,
    r: Result<(), StoreError>,
) -> bool {
    if pre.channels.contains_key(uuid) {
        r == Ok::<(), StoreError>(()) && post == (StoreModel {
            channels: pre.channels.remove(uuid),
            messages: pre.messages.remove_keys(messages_of_channel(pre.messages, uuid)),
            ..pre
        })
    } else {
        r == Err::<(), StoreError>(StoreError::NotFound) && post == pre
    }
}

/// What fetching a message returns, as [`user_fetch_post`].
pub open spec fn message_fetch_post(
    m: StoreModel,
    uuid: u128,
    r: Result<Message, StoreError>,
) -> bool {
    if m.messages.contains_key(uuid) {
        r == Ok::<Message, StoreError>(m.messages[uuid])
    } else {
        r == Err::<Message, StoreError>(StoreError::NotFound)
    }
}

/// What inserting a message does: `DuplicateId` where the id is taken, then
/// `UnknownReference` where the author or the channel is absent; in both
/// cases the store is unchanged. Otherwise the message is added under its id.
pub open spec fn message_insert_post(
    pre: StoreModel,
    message: Message,
    post: StoreModel,
    r: Result<(), StoreError>,
) -> bool {
    if pre.messages.contains_key(message.uuid) {
        r == Err::<(), StoreError>(StoreError::DuplicateId) && post == pre
    } else if !(pre.users.contains_key(message.author) && pre.channels.contains_key(
        message.channel,
    )) {
        r == Err::<(), StoreError>(StoreError::UnknownReference) && post == pre
    } else {
        r == Ok::<(), StoreError>(()) && post == (StoreModel {
            messages: pre.messages.insert(message.uuid, message),
            ..pre
        })
    }
}

/// What deleting a message does, as [`user_delete_post`].
pub open spec fn message_delete_post(
    pre: StoreModel,
    uuid: u128,
    post: StoreModel,
    r: Result<(), StoreError>,
) -> bool {
    if pre.messages.contains_key(uuid) {
        r == Ok::<(), StoreError>(()) && post == (StoreModel {
            messages: pre.messages.remove(uuid),
            ..pre
        })
    } else {
        r == Err::<(), StoreError>(StoreError::NotFound) && post == pre
    }
}

/// What fetching a server returns, as [`user_fetch_post`].
pub open spec fn server_fetch_post(
    m: StoreModel,
    uuid: u128,
    r: Result<Server, StoreError>,
) -> bool {
    if m.servers.contains_key(uuid) {
        r == Ok::<Server, StoreError>(m.servers[uuid])
    } else {
        r == Err::<Server, StoreError>(StoreError::NotFound)
    }
}

/// What inserting a server does: `DuplicateId` where the id is taken, then
/// `UnknownReference` where the owner's user is absent; in both cases the
/// store is unchanged. Otherwise the server is added under its id.
pub open spec fn server_insert_post(
    pre: StoreModel,
    server: Server,
    post: StoreModel,
    r: Result<(), StoreError>,
) -> bool {
    if pre.servers.contains_key(server.uuid) {
        r == Err::<(), StoreError>(StoreError::DuplicateId) && post == pre
    } else if !pre.users.contains_key(server.owner) {
        r == Err::<(), StoreError>(StoreError::UnknownReference) && post == pre
    } else {
        r == Ok::<(), StoreError>(()) && post == (StoreModel {
            servers: pre.servers.insert(server.uuid, server),
            ..pre
        })
    }
}

/// What deleting a server does, as [`user_delete_post`].
pub open spec fn server_delete_post(
    pre: StoreModel,
    uuid: u128,
    post: StoreModel,
    r: Result<(), StoreError>,
) -> bool {
    if pre.servers.contains_key(uuid) {
        r == Ok::<(), StoreError>(()) && post == (StoreModel {
            servers: pre.servers.remove(uuid),
            ..pre
        })
    } else {
        r == Err::<(), StoreError>(StoreError::NotFound) && post == pre
    }
}

/// Representation of a database.
///
/// Each entity kind exposes the same three-operation shape: fetch by id,
/// insert, delete by id. Callers receive copies of the stored entities,
/// never references into the store.
pub trait Database: Sized {
    /// Whether the representation is well formed. Constructors establish it
    /// and every operation preserves it.
    spec fn wf(&self) -> bool;

    /// The mathematical content of the store.
    spec fn model(&self) -> StoreModel;

    /// Fetches a channel by its id.
    fn channel_fetch(&self, uuid: u128) -> (r: Result<Channel, StoreError>)
        requires
            self.wf(),
        ensures
            channel_fetch_post(self.model(), uuid, r),
    ;

    /// Inserts a new channel.
    fn channel_insert(&mut self, channel: Channel) -> (r: Result<(), StoreError>)
        requires
            old(self).wf(),
        ensures
            final(self).wf(),
            channel_insert_post(old(self).model(), channel, final(self).model(), r),
    ;

    /// Deletes a channel by its id, and with it every message of the channel.
    fn channel_delete(&mut self, uuid: u128) -> (r: Result<(), StoreError>)
        requires
            old(self).wf(),
        ensures
            final(self).wf(),
            channel_delete_post(old(self).model(), uuid, final(self).model(), r),
    ;

    /// Fetches a message by its id.
    fn message_fetch(&self, uuid: u128) -> (r: Result<Message, StoreError>)
        requires
            self.wf(),
        ensures
            message_fetch_post(self.model(), uuid, r),
    ;

    /// Inserts a new message.
    fn message_insert(&mut self, message: Message) -> (r: Result<(), StoreError>)
        requires
            old(self).wf(),
        ensures
            final(self).wf(),
            message_insert_post(old(self).model(), message, final(self).model(), r),
    ;

    /// Deletes a message by its id.
    fn message_delete(&mut self, uuid: u128) -> (r: Result<(), StoreError>)
        requires
            old(self).wf(),
        ensures
            final(self).wf(),
            message_delete_post(old(self).model(), uuid, final(self).model(), r),
    ;

    /// Fetches a server by its id.
    fn server_fetch(&self, uuid: u128) -> (r: Result<Server, StoreError>)
        requires
            self.wf(),
        ensures
            server_fetch_post(self.model(), uuid, r),
    ;

    /// Inserts a new server.
    fn server_insert(&mut self, server: Server) -> (r: Result<(), StoreError>)
        requires
            old(self).wf(),
        ensures
            final(self).wf(),
            server_insert_post(old(self).model(), server, final(self).model(), r),
    ;

    /// Deletes a server by its id.
    fn server_delete(&mut self, uuid: u128) -> (r: Result<(), StoreError>)
        requires
            old(self).wf(),
        ensures
            final(self).wf(),
            server_delete_post(old(self).model(), uuid, final(self).model(), r),
    ;

    /// Fetches a user by its id.
    fn user_fetch(&self, uuid: u128) -> (r: Result<User, StoreError>)
        requires
            self.wf(),
        ensures
            user_fetch_post(self.model(), uuid, r),
    ;

    /// Inserts a new user.
    fn user_insert(&mut self, user: User) -> (r: Result<(), StoreError>)
        requires
            old(self).wf(),
        ensures
            final(self).wf(),
            user_insert_post(old(self).model(), user, final(self).model(), r),
    ;

    /// Deletes a user by its id.
    fn user_delete(&mut self, uuid: u128) -> (r: Result<(), StoreError>)
        requires
            old(self).wf(),
        ensures
            final(self).wf(),
            user_delete_post(old(self).model(), uuid, final(self).model(), r),
    ;
}

/// Law: a user admitted by an insert is immediately fetchable, and fetching
/// its id yields exactly the inserted user.
pub proof fn lemma_user_insert_round_trip(pre: StoreModel, user: User, post: StoreModel)
    requires
        user_insert_post(pre, user, post, Ok(())),
    ensures
        user_fetch_post(post, user.uuid, Ok(user)),
{
}

/// Law: a channel admitted by an insert is immediately fetchable, and
/// fetching its id yields exactly the inserted channel.
pub proof fn lemma_channel_insert_round_trip(pre: StoreModel, channel: Channel, post: StoreModel)
    requires
        channel_insert_post(pre, channel, post, Ok(())),
    ensures
        channel_fetch_post(post, channel.uuid(), Ok(channel)),
{
}

/// Law: a message admitted by an insert is immediately fetchable, and
/// fetching its id yields exactly the inserted message.
pub proof fn lemma_message_insert_round_trip(pre: StoreModel, message: Message, post: StoreModel)
    requires
        message_insert_post(pre, message, post, Ok(())),
    ensures
        message_fetch_post(post, message.uuid, Ok(message)),
{
}

/// Law: a server admitted by an insert is immediately fetchable, and
/// fetching its id yields exactly the inserted server.
pub proof fn lemma_server_insert_round_trip(pre: StoreModel, server: Server, post: StoreModel)
    requires
        server_insert_post(pre, server, post, Ok(())),
    ensures
        server_fetch_post(post, server.uuid, Ok(server)),
{
}

/// Law: deleting an id absent from the store fails with `NotFound` and
/// leaves the store unchanged; in particular a successful delete followed by
/// a delete of the same id fails the second time, whatever the entity kind.
pub proof fn lemma_user_delete_twice(
    pre: StoreModel,
    uuid: u128,
    mid: StoreModel,
    post: StoreModel,
    r: Result<(), StoreError>,
)
    requires
        user_delete_post(pre, uuid, mid, Ok(())),
        user_delete_post(mid, uuid, post, r),
    ensures
        r == Err::<(), StoreError>(StoreError::NotFound),
        post == mid,
{
}

/// Law: as [`lemma_user_delete_twice`], for channels.
pub proof fn lemma_channel_delete_twice(
    pre: StoreModel,
    uuid: u128,
    mid: StoreModel,
    post: StoreModel,
    r: Result<(), StoreError>,
)
    requires
        channel_delete_post(pre, uuid, mid, Ok(())),
        channel_delete_post(mid, uuid, post, r),
    ensures
        r == Err::<(), StoreError>(StoreError::NotFound),
        post == mid,
{
}

/// Law: as [`lemma_user_delete_twice`], for messages.
pub proof fn lemma_message_delete_twice(
    pre: StoreModel,
    uuid: u128,
    mid: StoreModel,
    post: StoreModel,
    r: Result<(), StoreError>,
)
    requires
        message_delete_post(pre, uuid, mid, Ok(())),
        message_delete_post(mid, uuid, post, r),
    ensures
        r == Err::<(), StoreError>(StoreError::NotFound),
        post == mid,
{
}

/// Law: as [`lemma_user_delete_twice`], for servers.
pub proof fn lemma_server_delete_twice(
    pre: StoreModel,
    uuid: u128,
    mid: StoreModel,
    post: StoreModel,
    r: Result<(), StoreError>,
)
    requires
        server_delete_post(pre, uuid, mid, Ok(())),
        server_delete_post(mid, uuid, post, r),
    ensures
        r == Err::<(), StoreError>(StoreError::NotFound),
        post == mid,
{
}

/// Law: inserting a channel that references a user id not present in the
/// store fails with `UnknownReference`, and the store — its channel map in
/// particular — is unchanged. The channel's own id is asked to be fresh:
/// a colliding id fails with `DuplicateId` first.
pub proof fn lemma_channel_insert_unknown_user(
    pre: StoreModel,
    channel: Channel,
    post: StoreModel,
    r: Result<(), StoreError>,
)
    requires
        channel_insert_post(pre, channel, post, r),
        !pre.channels.contains_key(channel.uuid()),
        !pre.users.contains_key(channel.spec_users().0) || !pre.users.contains_key(
            channel.spec_users().1,
        ),
    ensures
        r == Err::<(), StoreError>(StoreError::UnknownReference),
        post == pre,
        post.channels == pre.channels,
{
}

/// Law: deleting a channel removes every message of that channel. After a
/// successful delete of `uuid`, the channel id and the id of any message
/// whose `channel` field equals `uuid` are unfetchable.
pub proof fn lemma_channel_delete_cascades(
    pre: StoreModel,
    uuid: u128,
    post: StoreModel,
    message_id: u128,
)
    requires
        channel_delete_post(pre, uuid, post, Ok(())),
        pre.messages.contains_key(message_id),
        pre.messages[message_id].channel == uuid,
    ensures
        !post.channels.contains_key(uuid),
        !post.messages.contains_key(message_id),
        channel_fetch_post(post, uuid, Err(StoreError::NotFound)),
        message_fetch_post(post, message_id, Err(StoreError::NotFound)),
{
    assert(messages_of_channel(pre.messages, uuid).contains(message_id));
}

/// Law: deleting a channel touches nothing else: a message of another
/// channel, and every user and server, survive a cascading delete unchanged.
pub proof fn lemma_channel_delete_keeps_the_rest(
    pre: StoreModel,
    uuid: u128,
    post: StoreModel,
    message_id: u128,
)
    requires
        channel_delete_post(pre, uuid, post, Ok(())),
        pre.messages.contains_key(message_id),
        pre.messages[message_id].channel != uuid,
    ensures
        post.messages.contains_key(message_id),
        post.messages[message_id] == pre.messages[message_id],
        post.users == pre.users,
        post.servers == pre.servers,
{
    assert(!messages_of_channel(pre.messages, uuid).contains(message_id));
}

} // verus!
