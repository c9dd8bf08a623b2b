//! The record that the server keeps of each player.

use vstd::prelude::*;

verus! {

/// Three single-precision numbers, each held as its IEEE 754 bit pattern:
/// the record is stored and sent bit for bit, and never computed with.
#[derive(Copy, Clone, Debug, PartialEq, Eq, Structural)]
pub struct Real3 {
    pub x: u32,
    pub y: u32,
    pub z: u32,
}

/// Two single-precision numbers, each held as its IEEE 754 bit pattern.
#[derive(Copy, Clone, Debug, PartialEq, Eq, Structural)]
pub struct Real2 {
    pub x: u32,
    pub y: u32,
}

/// A player: the name that identifies them, where they stand and where they
/// look (yaw and pitch).
#[derive(Clone, Debug, PartialEq, Eq)]
pub struct Player {
    pub username: String,
    pub position: Real3,
    pub rotation: Real2,
}

/// What a [`Player`] holds, with the name as a sequence of characters.
pub struct PlayerView {
    pub username: Seq<char>,
    pub position: Real3,
    pub rotation: Real2,
}

impl View for Player {
    type V = PlayerView;

    open spec fn view(&self) -> PlayerView {
        PlayerView { username: self.username@, position: self.position, rotation: self.rotation }
    }
}

impl Player {
    /// The record of a player who has not been seen before: at the origin,
    /// looking straight ahead.
    pub fn new(username: String) -> (p: Player)
        ensures
            p@ == (PlayerView {
                username: username@,
                position: Real3 { x: 0, y: 0, z: 0 },
                rotation: Real2 { x: 0, y: 0 },
            }),
    {
        Player { username, position: Real3 { x: 0, y: 0, z: 0 }, rotation: Real2 { x: 0, y: 0 } }
    }
}

} // verus!
