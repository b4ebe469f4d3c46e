//! The pending player identity a connection captures at login start.

use vstd::prelude::*;

verus! {

use crate::protocol::LoginStart;

/// The claimed identity of the connecting client: a username and,
/// optionally, a client-declared 128-bit identifier. It is verified only
/// once the session authority confirms it.
#[derive(Debug, Clone)]
pub struct Player {
    pub username: String,
    pub uuid: Option<u128>,
}

pub struct PlayerV {
    pub username: Seq<char>,
    pub uuid: Option<u128>,
}

impl View for Player {
    type V = PlayerV;

    open spec fn view(&self) -> PlayerV {
        PlayerV { username: self.username@, uuid: self.uuid }
    }
}

impl Player {
    /// The pending identity carried by a login start message.
    pub fn from_login_start(login_start: LoginStart) -> (r: Player)
        ensures
            r@.username == login_start@.username,
            r@.uuid == login_start@.uuid,
    {
        Player { username: login_start.username, uuid: login_start.uuid }
    }
}

} // verus!
