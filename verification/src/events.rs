//! Events exchanged once a connection is admitted, and the authentication
//! hook.

use vstd::prelude::*;

use crate::model::client::Client;
use crate::model::message::Message;
use crate::model::user::User;

verus! {

/// The reason an authentication failed.
#[derive(Debug, Clone, Copy, PartialEq, Eq)]
pub enum AuthError {
    /// The user could not be authenticated on this client.
    Rejected,
}

/// Events that can be sent by a client to the server.
#[derive(Debug)]
pub enum Events {
    /// Ping the server to check the connection
    Ping,

    /// New message sent
    MessageSent(Message),
}

/// Provides a method to authenticate a user.
///
/// The policy is pluggable: implementors decide what a valid credential is.
pub trait Authentifier {
    /// Authenticates a user, returning the [`User`] authenticated in case
    /// of success.
    ///
    /// # Errors
    ///
    /// Returns an [`AuthError`] if the authentication fails.
    fn auth(username: &str, client: &Client) -> Result<User, AuthError>;
}

} // verus!
