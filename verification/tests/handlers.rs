//! The handler-side helpers: the rank tracker's latest-entry pick, the
//! sender-role test, regions and champion keys.

use xddmod::apis::ddragon::ChampionKey;
use xddmod::apis::op_gg::CommonSummoner;
use xddmod::apis::op_gg::LpHistory;
use xddmod::apis::op_gg::Region;
use xddmod::apis::op_gg::SummonerJson;
use xddmod::apis::op_gg::TierInfo;
use xddmod::apis::twitch::is_from_streamer_or_mod;
use xddmod::handlers::the_grind::TemplateInputs;

fn history(elo_point: i64, created_at: i64) -> LpHistory {
    LpHistory {
        elo_point,
        tier_info: TierInfo {
            tier: Some("GOLD".to_string()),
            division: Some(4),
            tier_image_url: "url".to_string(),
            border_image_url: None,
            lp: Some(elo_point),
        },
        created_at,
    }
}

fn summoner_json(histories: Vec<LpHistory>) -> SummonerJson {
    SummonerJson {
        common: CommonSummoner {
            id: 1,
            summoner_id: "s".to_string(),
            acct_id: "a".to_string(),
            puuid: "p".to_string(),
            name: "n".to_string(),
            internal_name: "n".to_string(),
            profile_image_url: "u".to_string(),
            level: 30,
            updated_at: 0,
        },
        lp_histories: histories,
    }
}

#[test]
fn the_grind_picks_the_latest_history_entry() {
    let inputs = TemplateInputs::from_summoner_json(summoner_json(vec![
        history(10, 100),
        history(30, 300),
        history(20, 200),
    ]));
    assert_eq!(inputs.last_lp_history.unwrap().elo_point, 30);
}

#[test]
fn the_grind_takes_the_first_of_equal_timestamps() {
    let inputs = TemplateInputs::from_summoner_json(summoner_json(vec![
        history(1, 300),
        history(2, 300),
        history(3, 100),
    ]));
    assert_eq!(inputs.last_lp_history.unwrap().elo_point, 1);
}

#[test]
fn the_grind_with_no_history_has_no_latest_entry() {
    let inputs = TemplateInputs::from_summoner_json(summoner_json(vec![]));
    assert!(inputs.last_lp_history.is_none());
}

#[test]
fn moderator_and_broadcaster_badges_are_privileged() {
    assert!(is_from_streamer_or_mod(&vec!["moderator".to_string()]));
    assert!(is_from_streamer_or_mod(&vec![
        "subscriber".to_string(),
        "broadcaster".to_string()
    ]));
    assert!(!is_from_streamer_or_mod(&vec!["subscriber".to_string()]));
    assert!(!is_from_streamer_or_mod(&vec![]));
}

#[test]
fn regions_know_their_lowercase_names() {
    assert_eq!(Region::Br.name(), "br");
    assert_eq!(Region::Eune.name(), "eune");
    assert_eq!(Region::Vn.name(), "vn");
}

#[test]
fn champion_keys_render_numeric_identifiers_in_decimal() {
    assert_eq!(ChampionKey::from_key_number(42).0, "42");
    assert_eq!(ChampionKey::from_key_number(0).0, "0");
    assert_eq!(ChampionKey::from_key_number(-157).0, "-157");
    assert_eq!(ChampionKey::new("Aatrox".to_string()).0, "Aatrox");
}
