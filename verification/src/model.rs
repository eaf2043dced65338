//! The entity model: users, channels, messages and servers, each identified
//! by an opaque 128-bit unique id.

pub mod channel;
pub mod client;
pub mod message;
pub mod server;
pub mod user;

use vstd::prelude::*;

verus! {

/// Relies on `uuid::Uuid::new_v4`: a fresh random version-4 UUID, handed out
/// as its 128-bit value. The value is random, so nothing is promised of it.
#[verifier::external_body]
pub(crate) fn fresh_uuid() -> u128 {
    uuid::Uuid::new_v4().as_u128()
}

} // verus!
