//! Structures related to clients.

use vstd::prelude::*;

verus! {

/// The reason a user could not be attached to a client.
#[derive(Debug, Clone, Copy, PartialEq, Eq)]
pub enum AttachError {
    /// The user is already attached to this client.
    AlreadyAttached,
}

/// Kind of client.
///
/// It can be desktop, mobile, ...
#[derive(Debug)]
pub enum Kind {
    /// Terminal client
    Tui,

    /// Desktop client
    Desktop,

    /// Mobile client
    Mobile,

    /// Web client
    Web,
}

/// Main structure for clients.
///
/// A client is not a user: a user can have several clients (mobile app,
/// desktop app, ...).
#[derive(Debug)]
pub struct Client {
    /// Unique identifier
    pub uuid: u128,

    /// List of users attached to this client, represented by their ids
    pub attached_users: Vec<u128>,

    /// Kind of client
    ///
    /// It is [`None`] if the kind is unknown.
    pub kind: Option<Kind>,
}

impl Client {
    /// Creates a new client with a fresh unique id and no attached user.
    pub fn new(kind: Option<Kind>) -> (r: Self)
        ensures
            r.attached_users@ == Seq::<u128>::empty(),
            r.kind == kind,
    {
        Self { uuid: crate::model::fresh_uuid(), attached_users: Vec::new(), kind }
    }

    /// Attaches a user to the given client.
    ///
    /// # Errors
    ///
    /// Returns an [`AttachError`] if the given user is already attached to
    /// this client; the client is then left unchanged.
    pub fn attach(&mut self, user: u128) -> (r: Result<(), AttachError>)
        ensures
            old(self).attached_users@.contains(user) ==> r == Err::<(), _>(
                AttachError::AlreadyAttached,
            ) && *final(self) == *old(self),
            !old(self).attached_users@.contains(user) ==> r == Ok::<_, AttachError>(())
                && final(self).attached_users@ == old(self).attached_users@.push(user)
                && final(self).uuid == old(self).uuid && final(self).kind == old(self).kind,
    {
        if contains_id(&self.attached_users, user) {
            Err(AttachError::AlreadyAttached)
        } else {
            self.attached_users.push(user);
            Ok(())
        }
    }
}

/// Whether `ids` holds `id`.
fn contains_id(ids: &Vec<u128>, id: u128) -> (r: bool)
    ensures
        r == ids@.contains(id),
{
    let mut i: usize = 0;
    while i < ids.len()
        invariant
            i <= ids@.len(),
            forall|j: int| 0 <= j < i ==> ids@[j] != id,
        decreases ids@.len() - i,
    {
        if ids[i] == id {
            return true;
        }
        i += 1;
    }
    false
}

} // verus!
