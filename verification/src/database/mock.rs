//! Mock database.
//!
//! An integrated, volatile store: all data is dropped at the end of the
//! execution. Each entity kind lives in a vector whose entries carry pairwise
//! distinct ids, and the store's mathematical content is the map from id to
//! entry built by [`key_map`].

use vstd::prelude::*;

use crate::database::Database as Interface;
use crate::database::{messages_of_channel, StoreError, StoreModel};
use crate::model::channel::Channel;
use crate::model::message::Message;
use crate::model::server::Server;
use crate::model::user::User;

verus! {

/// An entity stored under a unique id.
pub(crate) trait Keyed {
    /// The id the entity is stored under.
    spec fn key(&self) -> u128;
}

impl Keyed for Channel {
    open spec fn key(&self) -> u128 {
        self.spec_uuid()
    }
}

impl Keyed for Message {
    open spec fn key(&self) -> u128 {
        self.uuid
    }
}

impl Keyed for User {
    open spec fn key(&self) -> u128 {
        self.uuid
    }
}

impl Keyed for Server {
    open spec fn key(&self) -> u128 {
        self.uuid
    }
}

/// The map from id to entity held by a sequence of entities.
///
/// Later entries win; under [`keys_unique`] there is nothing to win over.
pub(crate) open spec fn key_map<T: Keyed>(s: Seq<T>) -> Map<u128, T>
    decreases s.len(),
{
    if s.len() == 0 {
        Map::empty()
    } else {
        key_map(s.drop_last()).insert(s.last().key(), s.last())
    }
}

/// Whether the entities of `s` carry pairwise distinct ids.
pub(crate) open spec fn keys_unique<T: Keyed>(s: Seq<T>) -> bool {
    forall|i: int, j: int|
        0 <= i < j < s.len() ==> #[trigger] s[i].key() != #[trigger] s[j].key()
}

/// An id is in the map exactly when some entry of the sequence carries it.
proof fn lemma_key_map_contains<T: Keyed>(s: Seq<T>, k: u128)
    ensures
        key_map(s).contains_key(k) <==> exists|i: int|
            0 <= i < s.len() && #[trigger] s[i].key() == k,
    decreases s.len(),
{
    if s.len() > 0 {
        lemma_key_map_contains(s.drop_last(), k);
        if s.last().key() == k {
            assert(s[s.len() - 1].key() == k);
        } else if key_map(s).contains_key(k) {
            let i = choose|i: int| 0 <= i < s.drop_last().len() && #[trigger] s.drop_last()[i].key() == k;
            assert(s[i].key() == k);
        } else if exists|i: int| 0 <= i < s.len() && #[trigger] s[i].key() == k {
            let i = choose|i: int| 0 <= i < s.len() && #[trigger] s[i].key() == k;
            assert(s.drop_last()[i].key() == k);
        }
    }
}

/// Under distinct ids, the map sends the id of the `i`-th entry to that
/// entry.
proof fn lemma_key_map_index<T: Keyed>(s: Seq<T>, i: int)
    requires
        keys_unique(s),
        0 <= i < s.len(),
    ensures
        key_map(s).contains_key(s[i].key()),
        key_map(s)[s[i].key()] == s[i],
    decreases s.len(),
{
    if i == s.len() - 1 {
        assert(s.last() == s[i]);
    } else {
        assert(keys_unique(s.drop_last())) by {
            assert(forall|x: int, y: int|
                0 <= x < y < s.drop_last().len() ==> s.drop_last()[x] == s[x] && s.drop_last()[y]
                    == s[y]);
        }
        lemma_key_map_index(s.drop_last(), i);
        assert(s.drop_last()[i] == s[i]);
        assert(s[i].key() != s[s.len() - 1].key());
    }
}

/// Appending an entry inserts it into the map.
proof fn lemma_key_map_push<T: Keyed>(s: Seq<T>, v: T)
    ensures
        key_map(s.push(v)) == key_map(s).insert(v.key(), v),
{
    assert(s.push(v).drop_last() =~= s);
    assert(s.push(v).last() == v);
}

/// Appending an entry with a fresh id keeps ids distinct.
proof fn lemma_keys_unique_push<T: Keyed>(s: Seq<T>, v: T)
    requires
        keys_unique(s),
        forall|i: int| 0 <= i < s.len() ==> #[trigger] s[i].key() != v.key(),
    ensures
        keys_unique(s.push(v)),
{
    assert forall|i: int, j: int| 0 <= i < j < s.push(v).len() implies #[trigger] s.push(v)[i].key()
        != #[trigger] s.push(v)[j].key() by {
        if j < s.len() {
            assert(s.push(v)[i] == s[i] && s.push(v)[j] == s[j]);
        } else {
            assert(s.push(v)[i] == s[i] && s.push(v)[j] == v);
        }
    }
}

/// Removing an entry keeps ids distinct.
proof fn lemma_keys_unique_remove<T: Keyed>(s: Seq<T>, i: int)
    requires
        keys_unique(s),
        0 <= i < s.len(),
    ensures
        keys_unique(s.remove(i)),
{
    assert forall|x: int, y: int| 0 <= x < y < s.remove(i).len() implies #[trigger] s.remove(
        i,
    )[x].key() != #[trigger] s.remove(i)[y].key() by {
        let x0 = if x < i {
            x
        } else {
            x + 1
        };
        let y0 = if y < i {
            y
        } else {
            y + 1
        };
        assert(s.remove(i)[x] == s[x0] && s.remove(i)[y] == s[y0]);
    }
}

/// Under distinct ids, removing the `i`-th entry removes its id from the
/// map.
proof fn lemma_key_map_remove<T: Keyed>(s: Seq<T>, i: int)
    requires
        keys_unique(s),
        0 <= i < s.len(),
    ensures
        key_map(s.remove(i)) == key_map(s).remove(s[i].key()),
    decreases s.len(),
{
    lemma_key_map_contains(s, s[i].key());
    if i == s.len() - 1 {
        assert(s.remove(i) =~= s.drop_last());
        assert(keys_unique(s.drop_last())) by {
            assert(forall|x: int, y: int|
                0 <= x < y < s.drop_last().len() ==> s.drop_last()[x] == s[x] && s.drop_last()[y]
                    == s[y]);
        }
        lemma_key_map_contains(s.drop_last(), s[i].key());
        assert(!key_map(s.drop_last()).contains_key(s[i].key())) by {
            if exists|x: int| 0 <= x < s.drop_last().len() && #[trigger] s.drop_last()[x].key()
                == s[i].key() {
                let x = choose|x: int|
                    0 <= x < s.drop_last().len() && #[trigger] s.drop_last()[x].key() == s[i].key();
                assert(s[x].key() == s[i].key());
            }
        }
        assert(key_map(s.remove(i)) =~= key_map(s).remove(s[i].key()));
    } else {
        assert(keys_unique(s.drop_last())) by {
            assert(forall|x: int, y: int|
                0 <= x < y < s.drop_last().len() ==> s.drop_last()[x] == s[x] && s.drop_last()[y]
                    == s[y]);
        }
        lemma_key_map_remove(s.drop_last(), i);
        assert(s.remove(i).drop_last() =~= s.drop_last().remove(i));
        assert(s.remove(i).last() == s.last());
        assert(s[i].key() != s[s.len() - 1].key());
        assert(key_map(s.remove(i)) == key_map(s.drop_last().remove(i)).insert(
            s.last().key(),
            s.last(),
        ));
        assert(key_map(s.remove(i)) =~= key_map(s).remove(s[i].key()));
    }
}

/// Finds the position of the channel with the given id.
fn find_channel(channels: &Vec<Channel>, uuid: u128) -> (r: Option<usize>)
    ensures
        match r {
            Some(i) => 0 <= i < channels@.len() && channels@[i as int].key() == uuid,
            None => forall|j: int| 0 <= j < channels@.len() ==> #[trigger] channels@[j].key()
                != uuid,
        },
{
    let mut i: usize = 0;
    while i < channels.len()
        invariant
            i <= channels@.len(),
            forall|j: int| 0 <= j < i ==> #[trigger] channels@[j].key() != uuid,
        decreases channels@.len() - i,
    {
        if channels[i].uuid() == uuid {
            return Some(i);
        }
        i += 1;
    }
    None
}

/// Finds the position of the message with the given id.
fn find_message(messages: &Vec<Message>, uuid: u128) -> (r: Option<usize>)
    ensures
        match r {
            Some(i) => 0 <= i < messages@.len() && messages@[i as int].key() == uuid,
            None => forall|j: int| 0 <= j < messages@.len() ==> #[trigger] messages@[j].key()
                != uuid,
        },
{
    let mut i: usize = 0;
    while i < messages.len()
        invariant
            i <= messages@.len(),
            forall|j: int| 0 <= j < i ==> #[trigger] messages@[j].key() != uuid,
        decreases messages@.len() - i,
    {
        if messages[i].uuid == uuid {
            return Some(i);
        }
        i += 1;
    }
    None
}

/// Finds the position of the user with the given id.
fn find_user(users: &Vec<User>, uuid: u128) -> (r: Option<usize>)
    ensures
        match r {
            Some(i) => 0 <= i < users@.len() && users@[i as int].key() == uuid,
            None => forall|j: int| 0 <= j < users@.len() ==> #[trigger] users@[j].key() != uuid,
        },
{
    let mut i: usize = 0;
    while i < users.len()
        invariant
            i <= users@.len(),
            forall|j: int| 0 <= j < i ==> #[trigger] users@[j].key() != uuid,
        decreases users@.len() - i,
    {
        if users[i].uuid == uuid {
            return Some(i);
        }
        i += 1;
    }
    None
}

/// Finds the position of the server with the given id.
fn find_server(servers: &Vec<Server>, uuid: u128) -> (r: Option<usize>)
    ensures
        match r {
            Some(i) => 0 <= i < servers@.len() && servers@[i as int].key() == uuid,
            None => forall|j: int| 0 <= j < servers@.len() ==> #[trigger] servers@[j].key()
                != uuid,
        },
{
    let mut i: usize = 0;
    while i < servers.len()
        invariant
            i <= servers@.len(),
            forall|j: int| 0 <= j < i ==> #[trigger] servers@[j].key() != uuid,
        decreases servers@.len() - i,
    {
        if servers[i].uuid == uuid {
            return Some(i);
        }
        i += 1;
    }
    None
}

/// Integrated database.
#[derive(Debug)]
pub struct Database {
    /// Existing channels
    channels: Vec<Channel>,

    /// Existing messages
    messages: Vec<Message>,

    /// Existing users
    users: Vec<User>,

    /// Existing servers
    servers: Vec<Server>,
}

impl Default for Database {
    /// The empty store.
    fn default() -> (r: Self)
        ensures
            r.wf(),
            r.model() == StoreModel::empty(),
    {
        let r = Database { channels: Vec::new(), messages: Vec::new(), users: Vec::new(), servers: Vec::new() };
        proof {
            assert(r.model() =~= StoreModel::empty());
        }
        r
    }
}

impl Interface for Database {
    closed spec fn wf(&self) -> bool {
        keys_unique(self.channels@) && keys_unique(self.messages@) && keys_unique(self.users@)
            && keys_unique(self.servers@)
    }

    closed spec fn model(&self) -> StoreModel {
        StoreModel {
            channels: key_map(self.channels@),
            messages: key_map(self.messages@),
            users: key_map(self.users@),
            servers: key_map(self.servers@),
        }
    }

    fn channel_fetch(&self, uuid: u128) -> (r: Result<Channel, StoreError>) {
        proof {
            lemma_key_map_contains(self.channels@, uuid);
        }
        match find_channel(&self.channels, uuid) {
            Some(i) => {
                proof {
                    lemma_key_map_index(self.channels@, i as int);
                }
                Ok(self.channels[i].clone())
            },
            None => Err(StoreError::NotFound),
        }
    }

    fn channel_insert(&mut self, channel: Channel) -> (r: Result<(), StoreError>) {
        let ghost pre = self.model();
        proof {
            lemma_key_map_contains(self.channels@, channel.uuid());
            lemma_key_map_contains(self.users@, channel.spec_users().0);
            lemma_key_map_contains(self.users@, channel.spec_users().1);
        }
        if find_channel(&self.channels, channel.uuid()).is_some() {
            return Err(StoreError::DuplicateId);
        }
        let (user1, user2) = match channel {
            Channel::DirectMessage { users, .. } => users,
        };
        if find_user(&self.users, user1).is_some() && find_user(&self.users, user2).is_some() {
            proof {
                lemma_key_map_push(self.channels@, channel);
                lemma_keys_unique_push(self.channels@, channel);
            }
            self.channels.push(channel);
            proof {
                assert(self.model() =~= (StoreModel {
                    channels: pre.channels.insert(channel.uuid(), channel),
                    ..pre
                }));
            }
            Ok(())
        } else {
            Err(StoreError::UnknownReference)
        }
    }

    fn channel_delete(&mut self, uuid: u128) -> (r: Result<(), StoreError>) {
        let ghost pre = self.model();
        proof {
            lemma_key_map_contains(self.channels@, uuid);
        }
        let i = match find_channel(&self.channels, uuid) {
            Some(i) => i,
            None => return Err(StoreError::NotFound),
        };
        proof {
            lemma_key_map_remove(self.channels@, i as int);
            lemma_keys_unique_remove(self.channels@, i as int);
        }
        self.channels.remove(i);
        let ghost chans_after = key_map(self.channels@);
        let ghost pre_msgs = key_map(self.messages@);
        // Snapshot the ids of the affected messages before mutating the
        // message store.
        let mut doomed: Vec<u128> = Vec::new();
        let mut j: usize = 0;
        while j < self.messages.len()
            invariant
                j <= self.messages@.len(),
                self.wf(),
                pre_msgs == key_map(self.messages@),
                forall|k: int|
                    0 <= k < doomed@.len() ==> message_source(
                        self.messages@,
                        #[trigger] doomed@[k],
                        j as int,
                        uuid,
                    ),
                forall|t: int|
                    0 <= t < j && #[trigger] self.messages@[t].channel == uuid
                        ==> doomed@.contains(self.messages@[t].uuid),
                doomed@.no_duplicates(),
            decreases self.messages@.len() - j,
        {
            if self.messages[j].channel == uuid {
                proof {
                    assert(!doomed@.contains(self.messages@[j as int].uuid)) by {
                        if doomed@.contains(self.messages@[j as int].uuid) {
                            let k = choose|k: int|
                                0 <= k < doomed@.len() && doomed@[k] == self.messages@[
                                    j as int
                                ].uuid;
                            assert(message_source(self.messages@, doomed@[k], j as int, uuid));
                            let t = choose|t: int|
                                0 <= t < j && self.messages@[t].uuid == doomed@[k]
                                    && #[trigger] self.messages@[t].channel == uuid;
                            assert(self.messages@[t].key() == self.messages@[j as int].key());
                            assert(false);
                        }
                    }
                }
                let ghost pre_doomed = doomed@;
                doomed.push(self.messages[j].uuid);
                proof {
                    assert forall|t: int|
                        0 <= t < j + 1 && #[trigger] self.messages@[t].channel
                            == uuid implies doomed@.contains(self.messages@[t].uuid) by {
                        if t < j {
                            let k = choose|k: int|
                                0 <= k < pre_doomed.len() && pre_doomed[k] == self.messages@[
                                    t
                                ].uuid;
                            assert(doomed@[k] == self.messages@[t].uuid);
                        } else {
                            assert(doomed@[doomed@.len() - 1] == self.messages@[t].uuid);
                        }
                    }
                    assert forall|k: int| 0 <= k < doomed@.len() implies message_source(
                        self.messages@,
                        #[trigger] doomed@[k],
                        j as int + 1,
                        uuid,
                    ) by {
                        if k < pre_doomed.len() {
                            assert(doomed@[k] == pre_doomed[k]);
                            assert(message_source(self.messages@, pre_doomed[k], j as int, uuid));
                            let t = choose|t: int|
                                0 <= t < j && self.messages@[t].uuid == pre_doomed[k]
                                    && #[trigger] self.messages@[t].channel == uuid;
                            assert(0 <= t < j + 1 && self.messages@[t].uuid == doomed@[k]
                                && self.messages@[t].channel == uuid);
                        } else {
                            assert(doomed@[k] == self.messages@[j as int].uuid);
                            assert(0 <= j < j + 1 && self.messages@[j as int].channel == uuid);
                        }
                    }
                }
            }
            j += 1;
        }
        let ghost doomed_set = doomed@.to_set();
        proof {
            assert forall|id: u128| doomed_set.contains(id) implies messages_of_channel(
                pre_msgs,
                uuid,
            ).contains(id) by {
                let k = choose|k: int| 0 <= k < doomed@.len() && doomed@[k] == id;
                assert(message_source(self.messages@, doomed@[k], j as int, uuid));
                let t = choose|t: int|
                    0 <= t < j && self.messages@[t].uuid == id && #[trigger] self.messages@[
                        t
                    ].channel == uuid;
                lemma_key_map_index(self.messages@, t);
            }
            assert forall|id: u128| messages_of_channel(pre_msgs, uuid).contains(
                id,
            ) implies doomed_set.contains(id) by {
                lemma_key_map_contains(self.messages@, id);
                let t = choose|t: int|
                    0 <= t < self.messages@.len() && #[trigger] self.messages@[t].key() == id;
                lemma_key_map_index(self.messages@, t);
                assert(self.messages@[t].channel == uuid);
                assert(doomed@.contains(self.messages@[t].uuid));
            }
            assert(doomed_set =~= messages_of_channel(pre_msgs, uuid));
            assert forall|k: int| 0 <= k < doomed@.len() implies pre_msgs.contains_key(
                #[trigger] doomed@[k],
            ) && doomed_set.contains(doomed@[k]) by {
                assert(doomed@.contains(doomed@[k]));
                assert(doomed_set.contains(doomed@[k]));
                assert(messages_of_channel(pre_msgs, uuid).contains(doomed@[k]));
            }
        }
        // Delete each affected message through the ordinary delete path.
        let mut idx: usize = 0;
        while idx < doomed.len()
            invariant
                idx <= doomed@.len(),
                self.wf(),
                self.model().channels == chans_after,
                self.model().users == pre.users,
                self.model().servers == pre.servers,
                self.model().messages == pre_msgs.remove_keys(
                    doomed@.take(idx as int).to_set(),
                ),
                doomed@.no_duplicates(),
                forall|k: int|
                    0 <= k < doomed@.len() ==> pre_msgs.contains_key(#[trigger] doomed@[k])
                        && doomed_set.contains(doomed@[k]),
            decreases doomed@.len() - idx,
        {
            let id = doomed[idx];
            proof {
                assert(!doomed@.take(idx as int).to_set().contains(id)) by {
                    if doomed@.take(idx as int).contains(id) {
                        let k = choose|k: int|
                            0 <= k < idx && doomed@.take(idx as int)[k] == id;
                        assert(doomed@[k] == doomed@[idx as int]);
                    }
                }
                assert(self.model().messages.contains_key(id));
            }
            match self.message_delete(id) {
                Ok(()) => {},
                Err(e) => {
                    proof {
                        assert(false);
                    }
                    return Err(e);
                },
            }
            proof {
                assert(doomed@.take(idx as int + 1).to_set() =~= doomed@.take(
                    idx as int,
                ).to_set().insert(id)) by {
                    assert(forall|k: int|
                        0 <= k < idx + 1 ==> doomed@.take(idx as int + 1)[k] == #[trigger] doomed@[k]);
                    assert(forall|k: int|
                        0 <= k < idx ==> doomed@.take(idx as int)[k] == #[trigger] doomed@[k]);
                    assert(doomed@.take(idx as int + 1)[idx as int] == id);
                }
                assert(self.model().messages =~= pre_msgs.remove_keys(
                    doomed@.take(idx as int + 1).to_set(),
                ));
            }
            idx += 1;
        }
        proof {
            assert(doomed@.take(doomed@.len() as int) =~= doomed@);
            assert(self.model() =~= (StoreModel {
                channels: pre.channels.remove(uuid),
                messages: pre_msgs.remove_keys(messages_of_channel(pre.messages, uuid)),
                ..pre
            }));
        }
        Ok(())
    }

    fn message_fetch(&self, uuid: u128) -> (r: Result<Message, StoreError>) {
        proof {
            lemma_key_map_contains(self.messages@, uuid);
        }
        match find_message(&self.messages, uuid) {
            Some(i) => {
                proof {
                    lemma_key_map_index(self.messages@, i as int);
                }
                Ok(self.messages[i].clone())
            },
            None => Err(StoreError::NotFound),
        }
    }

    fn message_insert(&mut self, message: Message) -> (r: Result<(), StoreError>) {
        let ghost pre = self.model();
        proof {
            lemma_key_map_contains(self.messages@, message.uuid);
            lemma_key_map_contains(self.users@, message.author);
            lemma_key_map_contains(self.channels@, message.channel);
        }
        if find_message(&self.messages, message.uuid).is_some() {
            return Err(StoreError::DuplicateId);
        }
        if find_user(&self.users, message.author).is_some() && find_channel(
            &self.channels,
            message.channel,
        ).is_some() {
            let ghost m = message;
            proof {
                lemma_key_map_push(self.messages@, message);
                lemma_keys_unique_push(self.messages@, message);
            }
            self.messages.push(message);
            proof {
                assert(self.model() =~= (StoreModel {
                    messages: pre.messages.insert(m.uuid, m),
                    ..pre
                }));
            }
            Ok(())
        } else {
            Err(StoreError::UnknownReference)
        }
    }

    fn message_delete(&mut self, uuid: u128) -> (r: Result<(), StoreError>) {
        let ghost pre = self.model();
        proof {
            lemma_key_map_contains(self.messages@, uuid);
        }
        match find_message(&self.messages, uuid) {
            Some(i) => {
                proof {
                    lemma_key_map_remove(self.messages@, i as int);
                    lemma_keys_unique_remove(self.messages@, i as int);
                }
                self.messages.remove(i);
                proof {
                    assert(self.model() =~= (StoreModel {
                        messages: pre.messages.remove(uuid),
                        ..pre
                    }));
                }
                Ok(())
            },
            None => Err(StoreError::NotFound),
        }
    }

    fn server_fetch(&self, uuid: u128) -> (r: Result<Server, StoreError>) {
        proof {
            lemma_key_map_contains(self.servers@, uuid);
        }
        match find_server(&self.servers, uuid) {
            Some(i) => {
                proof {
                    lemma_key_map_index(self.servers@, i as int);
                }
                Ok(self.servers[i].clone())
            },
            None => Err(StoreError::NotFound),
        }
    }

    fn server_insert(&mut self, server: Server) -> (r: Result<(), StoreError>) {
        let ghost pre = self.model();
        proof {
            lemma_key_map_contains(self.servers@, server.uuid);
            lemma_key_map_contains(self.users@, server.owner);
        }
        if find_server(&self.servers, server.uuid).is_some() {
            return Err(StoreError::DuplicateId);
        }
        if find_user(&self.users, server.owner).is_some() {
            let ghost s = server;
            proof {
                lemma_key_map_push(self.servers@, server);
                lemma_keys_unique_push(self.servers@, server);
            }
            self.servers.push(server);
            proof {
                assert(self.model() =~= (StoreModel {
                    servers: pre.servers.insert(s.uuid, s),
                    ..pre
                }));
            }
            Ok(())
        } else {
            Err(StoreError::UnknownReference)
        }
    }

    fn server_delete(&mut self, uuid: u128) -> (r: Result<(), StoreError>) {
        let ghost pre = self.model();
        proof {
            lemma_key_map_contains(self.servers@, uuid);
        }
        match find_server(&self.servers, uuid) {
            Some(i) => {
                proof {
                    lemma_key_map_remove(self.servers@, i as int);
                    lemma_keys_unique_remove(self.servers@, i as int);
                }
                self.servers.remove(i);
                proof {
                    assert(self.model() =~= (StoreModel {
                        servers: pre.servers.remove(uuid),
                        ..pre
                    }));
                }
                Ok(())
            },
            None => Err(StoreError::NotFound),
        }
    }

    fn user_fetch(&self, uuid: u128) -> (r: Result<User, StoreError>) {
        proof {
            lemma_key_map_contains(self.users@, uuid);
        }
        match find_user(&self.users, uuid) {
            Some(i) => {
                proof {
                    lemma_key_map_index(self.users@, i as int);
                }
                Ok(self.users[i].clone())
            },
            None => Err(StoreError::NotFound),
        }
    }

    fn user_insert(&mut self, user: User) -> (r: Result<(), StoreError>) {
        let ghost pre = self.model();
        proof {
            lemma_key_map_contains(self.users@, user.uuid);
        }
        if find_user(&self.users, user.uuid).is_some() {
            return Err(StoreError::DuplicateId);
        }
        let ghost u = user;
        proof {
            lemma_key_map_push(self.users@, user);
            lemma_keys_unique_push(self.users@, user);
        }
        self.users.push(user);
        proof {
            assert(self.model() =~= (StoreModel { users: pre.users.insert(u.uuid, u), ..pre }));
        }
        Ok(())
    }

    fn user_delete(&mut self, uuid: u128) -> (r: Result<(), StoreError>) {
        let ghost pre = self.model();
        proof {
            lemma_key_map_contains(self.users@, uuid);
        }
        match find_user(&self.users, uuid) {
            Some(i) => {
                proof {
                    lemma_key_map_remove(self.users@, i as int);
                    lemma_keys_unique_remove(self.users@, i as int);
                }
                self.users.remove(i);
                proof {
                    assert(self.model() =~= (StoreModel {
                        users: pre.users.remove(uuid),
                        ..pre
                    }));
                }
                Ok(())
            },
            None => Err(StoreError::NotFound),
        }
    }
}

/// Whether some entry of `msgs` before `bound` carries the id `id` and was
/// sent in the channel `channel`.
pub(crate) open spec fn message_source(
    msgs: Seq<Message>,
    id: u128,
    bound: int,
    channel: u128,
) -> bool {
    exists|t: int| 0 <= t < bound && msgs[t].uuid == id && #[trigger] msgs[t].channel == channel
}

} // verus!
