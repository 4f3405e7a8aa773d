//! Player profiles as the game's API describes them.
use vstd::prelude::*;

verus! {

/// A profile icon.
#[derive(Clone, Copy, Debug)]
pub struct Icon {
    pub id: i32,
}

/// The club a player belongs to.
#[derive(Clone, Debug)]
pub struct Club {
    pub tag: String,
    pub name: String,
}

/// A player's public profile.
#[derive(Clone, Debug)]
pub struct Player {
    pub tag: String,
    pub name: String,
    pub icon: Icon,
    pub trophies: i32,
    pub highest_trophies: i32,
    pub victories_3v3: i32,
    pub solo_victories: i32,
    pub duo_victories: i32,
    pub best_robo_rumble_time: i32,
    pub club: Club,
}

/// A registered player: tag and name from the profile, and the chat
/// account that registered it.
#[derive(Clone, Debug)]
pub struct PlayerDB {
    pub tag: String,
    pub name: String,
    pub id: Option<String>,
}

} // verus!
