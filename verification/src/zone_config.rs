//! A zone's configuration row and the rules it switches on. The safe
//! point, clip planes and rates are carried as the bit patterns of the
//! `f32` values stored for them.
use vstd::prelude::*;

verus! {

/// A zone as configured in the database.
#[derive(Debug, Clone)]
pub struct ZoneConfig {
    pub id: i32,
    pub zoneidnumber: i32,
    pub short_name: String,
    pub long_name: String,
    pub safe_x_bits: u32,
    pub safe_y_bits: u32,
    pub safe_z_bits: u32,
    pub safe_heading_bits: u32,
    pub min_level: i16,
    pub max_level: i16,
    pub min_clip_bits: u32,
    pub max_clip_bits: u32,
    pub underworld_bits: u32,
    pub walkspeed_bits: u32,
    pub zone_exp_multiplier_bits: u32,
    pub can_bind: i16,
    pub can_combat: i16,
    pub can_levitate: i16,
}

impl ZoneConfig {
    /// Whether players may bind their souls in the zone.
    pub fn bindable(&self) -> (b: bool)
        ensures
            b == (self.can_bind != 0),
    {
        self.can_bind != 0
    }

    /// Whether combat is allowed in the zone.
    pub fn combatable(&self) -> (b: bool)
        ensures
            b == (self.can_combat != 0),
    {
        self.can_combat != 0
    }

    /// Whether levitation works in the zone.
    pub fn levitable(&self) -> (b: bool)
        ensures
            b == (self.can_levitate != 0),
    {
        self.can_levitate != 0
    }
}

} // verus!
