use monrst::database::mock::Database;
use monrst::database::{Database as _, StoreError};
use monrst::model::channel::Channel;
use monrst::model::client::{AttachError, Client, Kind};
use monrst::model::message::Message;
use monrst::model::server::Server;
use monrst::model::user::User;

#[test]
fn channels_and_messages() {
    let mut database = Database::default();

    let alice = User::new("Alice");
    let bob = User::new("Bob");
    let direct_messages = Channel::new_direct_message(alice.uuid, bob.uuid);
    let direct_messages_uuid = direct_messages.uuid();
    let message_alice = Message::new(direct_messages_uuid, alice.uuid, "Hello".to_owned());
    let message_alice_uuid = message_alice.uuid;
    let message_bob = Message::new(direct_messages_uuid, bob.uuid, "world!".to_owned());

    assert!(database.user_insert(alice).is_ok());
    assert!(database.user_insert(bob).is_ok());
    assert!(database.channel_insert(direct_messages).is_ok());
    assert!(database.message_insert(message_alice).is_ok());
    assert!(database.message_insert(message_bob).is_ok());

    assert!(database.message_fetch(message_alice_uuid).is_ok());
    assert!(database.channel_delete(direct_messages_uuid).is_ok());
    assert!(database.message_fetch(message_alice_uuid).is_err());
}

#[test]
fn users() {
    let mut database = Database::default();

    let alice = User::new("Alice");
    let bob = User::new("Bob");
    let alice_uuid = alice.uuid;
    let bob_uuid = bob.uuid;

    assert!(database.user_insert(alice.clone()).is_ok());
    assert!(database.user_insert(alice).is_err());
    assert!(database.user_insert(bob.clone()).is_ok());
    assert_eq!(database.user_fetch(alice_uuid).unwrap().username, "Alice");
    assert!(database.user_delete(bob_uuid).is_ok());
}

#[test]
fn insert_then_fetch_round_trip() {
    let mut database = Database::default();

    let alice = User::new("Alice");
    assert!(!alice.online);
    let alice_uuid = alice.uuid;
    assert!(database.user_insert(alice.clone()).is_ok());
    let fetched = database.user_fetch(alice_uuid).unwrap();
    assert_eq!(fetched.uuid, alice.uuid);
    assert_eq!(fetched.username, alice.username);
    assert_eq!(fetched.discriminator, alice.discriminator);
    assert_eq!(fetched.online, alice.online);

    let channel = Channel::new_direct_message(alice_uuid, alice_uuid);
    let channel_uuid = channel.uuid();
    assert!(database.channel_insert(channel).is_ok());
    let fetched = database.channel_fetch(channel_uuid).unwrap();
    let Channel::DirectMessage { uuid, users } = fetched;
    assert_eq!(uuid, channel_uuid);
    assert_eq!(users, (alice_uuid, alice_uuid));

    let message = Message::new(channel_uuid, alice_uuid, "note to self".to_owned());
    let message_uuid = message.uuid;
    assert!(database.message_insert(message).is_ok());
    let fetched = database.message_fetch(message_uuid).unwrap();
    assert_eq!(fetched.uuid, message_uuid);
    assert_eq!(fetched.channel, channel_uuid);
    assert_eq!(fetched.author, alice_uuid);
    assert_eq!(fetched.content, "note to self");
}

#[test]
fn duplicate_ids_are_rejected() {
    let mut database = Database::default();

    let alice = User::new("Alice");
    assert!(database.user_insert(alice.clone()).is_ok());
    assert_eq!(
        database.user_insert(alice.clone()).unwrap_err(),
        StoreError::DuplicateId
    );

    let channel = Channel::new_direct_message(alice.uuid, alice.uuid);
    assert!(database.channel_insert(channel).is_ok());
    assert_eq!(
        database.channel_insert(channel).unwrap_err(),
        StoreError::DuplicateId
    );

    let message = Message::new(channel.uuid(), alice.uuid, "hi".to_owned());
    assert!(database.message_insert(message.clone()).is_ok());
    assert_eq!(
        database.message_insert(message).unwrap_err(),
        StoreError::DuplicateId
    );
}

#[test]
fn deleting_a_nonexistent_id_fails_and_twice_fails_the_second_time() {
    let mut database = Database::default();

    assert_eq!(database.user_delete(7).unwrap_err(), StoreError::NotFound);
    assert_eq!(database.channel_delete(7).unwrap_err(), StoreError::NotFound);
    assert_eq!(database.message_delete(7).unwrap_err(), StoreError::NotFound);
    assert_eq!(database.server_delete(7).unwrap_err(), StoreError::NotFound);
    assert_eq!(database.user_fetch(7).unwrap_err(), StoreError::NotFound);

    let alice = User::new("Alice");
    let alice_uuid = alice.uuid;
    assert!(database.user_insert(alice).is_ok());
    assert!(database.user_delete(alice_uuid).is_ok());
    assert_eq!(
        database.user_delete(alice_uuid).unwrap_err(),
        StoreError::NotFound
    );
}

#[test]
fn channel_with_unknown_user_is_rejected() {
    let mut database = Database::default();

    let alice = User::new("Alice");
    let alice_uuid = alice.uuid;
    assert!(database.user_insert(alice).is_ok());

    let ghost_user = User::new("Casper");
    let channel = Channel::new_direct_message(alice_uuid, ghost_user.uuid);
    let channel_uuid = channel.uuid();
    assert_eq!(
        database.channel_insert(channel).unwrap_err(),
        StoreError::UnknownReference
    );
    // The channel set is unchanged: the rejected channel is not fetchable.
    assert_eq!(
        database.channel_fetch(channel_uuid).unwrap_err(),
        StoreError::NotFound
    );
}

#[test]
fn message_with_unknown_author_or_channel_is_rejected() {
    let mut database = Database::default();

    let alice = User::new("Alice");
    let alice_uuid = alice.uuid;
    assert!(database.user_insert(alice).is_ok());
    let channel = Channel::new_direct_message(alice_uuid, alice_uuid);
    let channel_uuid = channel.uuid();
    assert!(database.channel_insert(channel).is_ok());

    let from_nowhere = Message::new(99, alice_uuid, "hi".to_owned());
    assert_eq!(
        database.message_insert(from_nowhere).unwrap_err(),
        StoreError::UnknownReference
    );
    let from_nobody = Message::new(channel_uuid, 99, "hi".to_owned());
    assert_eq!(
        database.message_insert(from_nobody).unwrap_err(),
        StoreError::UnknownReference
    );
}

#[test]
fn servers_follow_the_same_shape() {
    let mut database = Database::default();

    let alice = User::new("Alice");
    let alice_uuid = alice.uuid;
    assert!(database.user_insert(alice).is_ok());

    let orphan = Server {
        uuid: 1,
        owner: 99,
        name: "nowhere".to_owned(),
        description: "an unowned server".to_owned(),
    };
    assert_eq!(
        database.server_insert(orphan).unwrap_err(),
        StoreError::UnknownReference
    );

    let server = Server {
        uuid: 1,
        owner: alice_uuid,
        name: "home".to_owned(),
        description: "the first server".to_owned(),
    };
    assert!(database.server_insert(server).is_ok());
    let fetched = database.server_fetch(1).unwrap();
    assert_eq!(fetched.owner, alice_uuid);
    assert_eq!(fetched.name, "home");
    assert_eq!(fetched.description, "the first server");
    assert_eq!(
        database
            .server_insert(Server {
                uuid: 1,
                owner: alice_uuid,
                name: "again".to_owned(),
                description: "a duplicate".to_owned(),
            })
            .unwrap_err(),
        StoreError::DuplicateId
    );
    assert!(database.server_delete(1).is_ok());
    assert_eq!(database.server_fetch(1).unwrap_err(), StoreError::NotFound);
}

#[test]
fn end_to_end_channel_delete_cascades() {
    let mut database = Database::default();

    let alice = User::new("Alice");
    let bob = User::new("Bob");
    let alice_uuid = alice.uuid;
    let bob_uuid = bob.uuid;
    assert!(database.user_insert(alice).is_ok());
    assert!(database.user_insert(bob).is_ok());

    let channel = Channel::new_direct_message(alice_uuid, bob_uuid);
    let channel_uuid = channel.uuid();
    assert!(database.channel_insert(channel).is_ok());

    let first = Message::new(channel_uuid, alice_uuid, "Hello".to_owned());
    let second = Message::new(channel_uuid, bob_uuid, "world!".to_owned());
    let first_uuid = first.uuid;
    let second_uuid = second.uuid;
    assert!(database.message_insert(first).is_ok());
    assert!(database.message_insert(second).is_ok());

    assert!(database.channel_delete(channel_uuid).is_ok());

    // Both messages and the channel are unfetchable ...
    assert_eq!(
        database.message_fetch(first_uuid).unwrap_err(),
        StoreError::NotFound
    );
    assert_eq!(
        database.message_fetch(second_uuid).unwrap_err(),
        StoreError::NotFound
    );
    assert_eq!(
        database.channel_fetch(channel_uuid).unwrap_err(),
        StoreError::NotFound
    );
    // ... while both users remain fetchable.
    assert!(database.user_fetch(alice_uuid).is_ok());
    assert!(database.user_fetch(bob_uuid).is_ok());
}

#[test]
fn channel_delete_keeps_messages_of_other_channels() {
    let mut database = Database::default();

    let alice = User::new("Alice");
    let alice_uuid = alice.uuid;
    assert!(database.user_insert(alice).is_ok());

    let doomed = Channel::new_direct_message(alice_uuid, alice_uuid);
    let kept = Channel::new_direct_message(alice_uuid, alice_uuid);
    assert!(database.channel_insert(doomed).is_ok());
    assert!(database.channel_insert(kept).is_ok());

    let in_doomed = Message::new(doomed.uuid(), alice_uuid, "going".to_owned());
    let in_kept = Message::new(kept.uuid(), alice_uuid, "staying".to_owned());
    let in_kept_uuid = in_kept.uuid;
    assert!(database.message_insert(in_doomed).is_ok());
    assert!(database.message_insert(in_kept).is_ok());

    assert!(database.channel_delete(doomed.uuid()).is_ok());
    assert_eq!(database.message_fetch(in_kept_uuid).unwrap().content, "staying");
    assert!(database.channel_fetch(kept.uuid()).is_ok());
}

#[test]
fn clients_attach_users_once() {
    let mut client = Client::new(Some(Kind::Tui));
    assert!(client.attached_users.is_empty());

    let alice = User::new("Alice");
    assert!(client.attach(alice.uuid).is_ok());
    assert_eq!(
        client.attach(alice.uuid).unwrap_err(),
        AttachError::AlreadyAttached
    );
    assert_eq!(client.attached_users, vec![alice.uuid]);

    let mut unknown = Client::new(None);
    assert!(unknown.kind.is_none());
    assert!(unknown.attach(alice.uuid).is_ok());
}
