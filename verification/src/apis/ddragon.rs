//! The static champion reference data, keyed by a champion key that arrives
//! either as text or as a numeric identifier.

use vstd::prelude::*;

use crate::text::decimal_of;
use crate::text::i64_to_string;

verus! {

/// The key of a champion record: numeric keys are kept in their decimal
/// rendering, as the reference data indexes them.
#[derive(Debug, PartialEq, Eq, Hash)]
pub struct ChampionKey(pub String);

impl Clone for ChampionKey {
    fn clone(&self) -> (r: Self)
        ensures
            r == *self,
    {
        ChampionKey(self.0.clone())
    }
}

impl ChampionKey {
    pub fn new(value: String) -> (r: Self)
        ensures
            r.0 == value,
    {
        ChampionKey(value)
    }

    /// The key for a numeric champion identifier: its decimal rendering.
    pub fn from_key_number(value: i64) -> (r: Self)
        ensures
            r.0@ == decimal_of(value as int),
    {
        ChampionKey(i64_to_string(value))
    }
}

/// Where a champion's square image lives in the sprite sheets.
#[derive(Clone, Copy, Debug, PartialEq, Eq, Structural)]
pub enum Sprite {
    Champion0Png,
    Champion1Png,
    Champion2Png,
    Champion3Png,
    Champion4Png,
    Champion5Png,
}

/// The group a sprite belongs to.
#[derive(Clone, Copy, Debug, PartialEq, Eq, Structural)]
pub enum Kind {
    Champion,
}

/// The group a sprite belongs to, under the older record's name.
#[derive(Clone, Copy, Debug, PartialEq, Eq, Structural)]
pub enum Type {
    Champion,
}

/// A champion's class tags.
#[derive(Clone, Copy, Debug, PartialEq, Eq, Structural)]
pub enum Tag {
    Assassin,
    Fighter,
    Mage,
    Marksman,
    Support,
    Tank,
}

/// A champion's image reference in the sprite sheets.
#[derive(Clone, Debug, PartialEq)]
pub struct Image {
    pub full: String,
    pub sprite: Sprite,
    pub group: Kind,
    pub x: i64,
    pub y: i64,
    pub w: i64,
    pub h: i64,
}

/// A champion's difficulty ratings.
#[derive(Clone, Copy, Debug, PartialEq, Eq, Structural)]
pub struct Info {
    pub attack: i64,
    pub defense: i64,
    pub magic: i64,
    pub difficulty: i64,
}

} // verus!
