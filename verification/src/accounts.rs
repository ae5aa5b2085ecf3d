//! Account and character-selection records of the world server, as read
//! from its database.
use vstd::prelude::*;

verus! {

/// A login account.
#[derive(Debug, Clone)]
pub struct AccountInfo {
    pub id: i32,
    pub name: String,
    pub status: i16,
    pub is_banned: bool,
}

/// One character of an account, as shown on the character-select screen.
#[derive(Debug, Clone)]
pub struct CharSelectEntry {
    pub id: i32,
    pub name: String,
    pub level: i32,
    pub race: i16,
    pub class_id: i16,
    pub gender: i16,
    pub zone_id: i32,
    pub deity: i32,
    pub face: i32,
}

} // verus!
