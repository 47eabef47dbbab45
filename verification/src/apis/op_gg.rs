//! Models of the stat collaborator's records, reduced to plain values:
//! regions, tiers, summoner profiles with their rating history, per-game
//! team statistics and the live-spectate records. Timestamps are seconds
//! since the Unix epoch.

use vstd::prelude::*;
use vstd::string::*;

verus! {

/// The routing region of a summoner.
#[derive(Clone, Copy, Debug, PartialEq, Eq, Structural)]
pub enum Region {
    Br,
    Eune,
    Euw,
    Jp,
    Kr,
    Lan,
    Las,
    Na,
    Oce,
    Ph,
    Ru,
    Sg,
    Th,
    Tr,
    Tw,
    Vn,
}

/// The lowercase name of a region, as the collaborator's paths spell it.
pub open spec fn region_name(r: Region) -> Seq<char> {
    match r {
        Region::Br => "br"@,
        Region::Eune => "eune"@,
        Region::Euw => "euw"@,
        Region::Jp => "jp"@,
        Region::Kr => "kr"@,
        Region::Lan => "lan"@,
        Region::Las => "las"@,
        Region::Na => "na"@,
        Region::Oce => "oce"@,
        Region::Ph => "ph"@,
        Region::Ru => "ru"@,
        Region::Sg => "sg"@,
        Region::Th => "th"@,
        Region::Tr => "tr"@,
        Region::Tw => "tw"@,
        Region::Vn => "vn"@,
    }
}

impl Region {
    /// The region's lowercase name.
    pub fn name(&self) -> (r: String)
        ensures
            r@ == region_name(*self),
    {
        match self {
            Region::Br => String::from_str("br"),
            Region::Eune => String::from_str("eune"),
            Region::Euw => String::from_str("euw"),
            Region::Jp => String::from_str("jp"),
            Region::Kr => String::from_str("kr"),
            Region::Lan => String::from_str("lan"),
            Region::Las => String::from_str("las"),
            Region::Na => String::from_str("na"),
            Region::Oce => String::from_str("oce"),
            Region::Ph => String::from_str("ph"),
            Region::Ru => String::from_str("ru"),
            Region::Sg => String::from_str("sg"),
            Region::Th => String::from_str("th"),
            Region::Tr => String::from_str("tr"),
            Region::Tw => String::from_str("tw"),
            Region::Vn => String::from_str("vn"),
        }
    }
}

/// The two sides of a game.
#[derive(Clone, Copy, Debug, PartialEq, Eq, Structural)]
pub enum TeamKey {
    Red,
    Blue,
}

/// A rating: tier name, division, the images that render it, and league
/// points.
#[derive(Debug, PartialEq)]
pub struct TierInfo {
    pub tier: Option<String>,
    pub division: Option<i64>,
    pub tier_image_url: String,
    pub border_image_url: Option<String>,
    pub lp: Option<i64>,
}

/// The rune pages a participant picked.
#[derive(Clone, Copy, Debug, PartialEq, Eq, Structural)]
pub struct Rune {
    pub primary_page_id: i64,
    pub primary_rune_id: i64,
    pub secondary_page_id: i64,
}

/// Which queue a game was played in.
#[derive(Clone, Debug, PartialEq)]
pub struct QueueInfo {
    pub id: i64,
    pub queue_translate: String,
    pub game_type: String,
}

/// One team's aggregate statistics in a game.
#[derive(Clone, Copy, Debug, PartialEq, Eq, Structural)]
pub struct GameStat {
    pub dragon_kill: i64,
    pub baron_kill: i64,
    pub tower_kill: i64,
    pub is_remake: bool,
    pub is_win: bool,
    pub kill: i64,
    pub death: i64,
    pub assist: i64,
    pub gold_earned: i64,
}

/// The shared profile fields of a summoner.
#[derive(Clone, Debug, PartialEq)]
pub struct CommonSummoner {
    pub id: i64,
    pub summoner_id: String,
    pub acct_id: String,
    pub puuid: String,
    pub name: String,
    pub internal_name: String,
    pub profile_image_url: String,
    pub level: i64,
    pub updated_at: i64,
}

/// A summoner as the autocomplete lookup returns it.
#[derive(Clone, Debug, PartialEq)]
pub struct Summoner {
    pub common: CommonSummoner,
    pub solo_tier_info: Option<TierInfo>,
}

/// The autocomplete lookup's result page.
#[derive(Clone, Debug, PartialEq)]
pub struct Summoners {
    pub data: Vec<Summoner>,
}

/// One rating-history entry of a summoner.
#[derive(Debug, PartialEq)]
pub struct LpHistory {
    pub elo_point: i64,
    pub tier_info: TierInfo,
    pub created_at: i64,
}

impl Clone for TierInfo {
    fn clone(&self) -> (r: Self)
        ensures
            r == *self,
    {
        TierInfo {
            tier: match &self.tier {
                Some(t) => Some(t.clone()),
                None => None,
            },
            division: self.division,
            tier_image_url: self.tier_image_url.clone(),
            border_image_url: match &self.border_image_url {
                Some(b) => Some(b.clone()),
                None => None,
            },
            lp: self.lp,
        }
    }
}

impl Clone for LpHistory {
    fn clone(&self) -> (r: Self)
        ensures
            r == *self,
    {
        LpHistory {
            elo_point: self.elo_point,
            tier_info: self.tier_info.clone(),
            created_at: self.created_at,
        }
    }
}

/// A summoner profile with its rating history.
#[derive(Clone, Debug, PartialEq)]
pub struct SummonerJson {
    pub common: CommonSummoner,
    pub lp_histories: Vec<LpHistory>,
}

/// A season reference of the spectate record.
#[derive(Clone, Copy, Debug, PartialEq, Eq, Structural)]
pub struct Season {
    pub id: i64,
    pub value: i64,
    pub display_value: i64,
    pub is_preseason: bool,
}

/// The rune build of a live-game participant.
#[derive(Clone, Debug, PartialEq)]
pub struct RuneBuild {
    pub primary_page_id: i64,
    pub primary_rune_ids: Vec<i64>,
    pub secondary_page_id: i64,
    pub secondary_rune_ids: Vec<i64>,
    pub stat_mod_ids: Vec<i64>,
}

/// The answer of the spectate lookup when the summoner is not in a game.
#[derive(Clone, Debug, PartialEq)]
pub struct NotInGame {
    pub code: i64,
    pub message: String,
    pub detail: Detail,
}

/// The detail block of a not-in-game answer.
#[derive(Clone, Debug, PartialEq)]
pub struct Detail {
    pub param: String,
    pub detail_message: String,
}

} // verus!
