//! Structures related to the server.

use vstd::prelude::*;

verus! {

/// Main structure representing the server.
#[derive(Debug)]
pub struct Server {
    /// Unique identifier
    pub uuid: u128,

    /// Id of the owner's user
    pub owner: u128,

    /// Name of the server
    pub name: String,

    /// Description of the server
    pub description: String,
}

impl Clone for Server {
    fn clone(&self) -> (r: Self)
        ensures
            r == *self,
    {
        Self {
            uuid: self.uuid,
            owner: self.owner,
            name: self.name.clone(),
            description: self.description.clone(),
        }
    }
}

} // verus!
