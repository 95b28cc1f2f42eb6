use ruche::assembly::{
    add_encounters, get_live_game_data, find_summoner, new_summoners, participant_puuids,
    puuids_not_found, summoner_ids,
};
use ruche::fixed_string::{ProPlayerSlug, Puuid, RiotMatchId};
use ruche::live_game::{
    Account, CurrentGameInfo, CurrentGameParticipant, LiveGameParticipantChampionStats,
    LiveGameParticipantRankedStats, ParticipantLiveStats, Perks, Queue, SummonerLiveModel,
    TempSummoner,
};
use ruche::stats::get_summoners_live_stats;
use std::collections::HashMap;

fn asm_participant(puuid: Option<&str>, champion_id: i32, team_id: u16) -> CurrentGameParticipant {
    CurrentGameParticipant {
        puuid: puuid.map(|p| p.to_string()),
        champion_id,
        spell1_id: 4,
        spell2_id: 14,
        team_id,
        profile_icon_id: 29,
        perks: Some(Perks { perk_ids: vec![8005, 9111, 9104], perk_sub_style: 8100 }),
    }
}

fn asm_game(participants: Vec<CurrentGameParticipant>) -> CurrentGameInfo {
    CurrentGameInfo {
        game_id: 123456,
        platform_id: "NA1".to_string(),
        game_length: 754,
        map_id: 11,
        game_queue_config_id: Some(420),
        participants,
    }
}

fn asm_record(id: i32, puuid: &str) -> SummonerLiveModel {
    SummonerLiveModel {
        id,
        game_name: format!("name{}", id),
        tag_line: format!("tag{}", id),
        puuid: puuid.to_string(),
        platform: "NA1".to_string(),
        summoner_level: 100 + id,
        pro_slug: None,
    }
}

#[test]
fn identities_skip_participants_without_one() {
    let game = asm_game(vec![
        asm_participant(Some("a"), 1, 100),
        asm_participant(None, 2, 100),
        asm_participant(Some(""), 3, 200),
        asm_participant(Some("b"), 4, 200),
    ]);
    assert_eq!(participant_puuids(&game), vec!["a".to_string(), "b".to_string()]);
    assert_eq!(participant_puuids(&asm_game(Vec::new())), Vec::<String>::new());
}

#[test]
fn directory_answer_is_searched_by_identity() {
    let records = vec![asm_record(1, "a"), asm_record(2, "b"), asm_record(3, "a")];
    assert_eq!(find_summoner(&records, "a").unwrap().id, 3);
    assert_eq!(find_summoner(&records, "b").unwrap().id, 2);
    assert!(find_summoner(&records, "c").is_none());
    assert!(find_summoner(&records, "").is_none());
}

#[test]
fn discovery_asks_only_for_unknown_identities() {
    let puuids = vec!["a".to_string(), "b".to_string(), "c".to_string(), "d".to_string()];
    let known = vec![asm_record(1, "a"), asm_record(3, "c")];
    assert_eq!(puuids_not_found(&puuids, &known), vec!["b".to_string(), "d".to_string()]);
    assert_eq!(puuids_not_found(&puuids, &Vec::new()), puuids);
    let all = vec![asm_record(1, "a"), asm_record(2, "b"), asm_record(3, "c"), asm_record(4, "d")];
    assert_eq!(puuids_not_found(&puuids, &all), Vec::<String>::new());
}

#[test]
fn new_player_record_is_built_from_account_and_match() {
    let mut with_icon = asm_participant(Some("b"), 2, 100);
    with_icon.profile_icon_id = 4567;
    let game = asm_game(vec![asm_participant(Some("a"), 1, 100), with_icon]);
    let accounts = vec![Account {
        puuid: "b".to_string(),
        game_name: Some("Bee".to_string()),
        tag_line: None,
    }];
    let requested = vec!["b".to_string()];
    assert_eq!(
        new_summoners(&accounts, &requested, &game, "NA1", 1700000000),
        vec![TempSummoner {
            game_name: "Bee".to_string(),
            tag_line: String::new(),
            puuid: "b".to_string(),
            platform: "NA1".to_string(),
            summoner_level: 0,
            profile_icon_id: 4567,
            updated_at: 1700000000,
        }]
    );
}

#[test]
fn account_that_was_not_requested_is_left_out() {
    let game = asm_game(vec![asm_participant(Some("a"), 1, 100), asm_participant(Some("b"), 2, 100)]);
    let accounts = vec![
        Account { puuid: "a".to_string(), game_name: None, tag_line: None },
        Account { puuid: "zzz".to_string(), game_name: None, tag_line: None },
        Account { puuid: "b".to_string(), game_name: None, tag_line: None },
    ];
    let requested = vec!["b".to_string(), "zzz".to_string()];
    let made = new_summoners(&accounts, &requested, &game, "NA1", 5);
    assert_eq!(made.len(), 1);
    assert_eq!(made[0].puuid, "b");
    assert_eq!(new_summoners(&Vec::new(), &requested, &game, "NA1", 5), Vec::new());
}

#[test]
fn match_identity_is_game_id_and_platform() {
    let game = asm_game(Vec::new());
    let table = get_summoners_live_stats(&Vec::new());
    let snapshot = get_live_game_data(&game, &Vec::new(), &table);
    assert_eq!(snapshot.game_id, RiotMatchId::new("123456_NA1"));
    assert_eq!(snapshot.game_id.as_ref(), "123456_NA1");
    assert_eq!(snapshot.game_length, 754);
    assert_eq!(snapshot.game_map, 11);
    assert_eq!(snapshot.queue, Queue::Id(420));
    assert!(snapshot.participants.is_empty());
}

#[test]
fn match_identity_is_cut_at_its_capacity() {
    let mut game = asm_game(Vec::new());
    game.game_id = -7123456789;
    game.platform_id = "EUW1-LONG".to_string();
    game.game_queue_config_id = None;
    game.game_length = 65536 + 3;
    let snapshot = get_live_game_data(&game, &Vec::new(), &get_summoners_live_stats(&Vec::new()));
    assert_eq!(snapshot.game_id.as_ref(), "-7123456789_EUW1-");
    assert_eq!(snapshot.queue, Queue::Unknown);
    assert_eq!(snapshot.game_length, 3);
}

#[test]
fn assembly_skips_empty_identities_and_includes_the_resolved() {
    let game = asm_game(vec![
        asm_participant(Some("a"), 10, 100),
        asm_participant(Some(""), 11, 100),
        asm_participant(None, 12, 100),
        asm_participant(Some("unknown"), 13, 200),
        asm_participant(Some("b"), 20, 200),
    ]);
    let mut pro = asm_record(2, "b");
    pro.pro_slug = Some("the-pro".to_string());
    let records = vec![asm_record(1, "a"), pro];
    let rows = vec![
        ParticipantLiveStats {
            summoner_id: 1,
            champion_id: 10,
            total_match: 5,
            total_win: 3,
            avg_kills: 550,
            avg_deaths: 320,
            avg_assists: 875,
        },
        ParticipantLiveStats {
            summoner_id: 1,
            champion_id: 99,
            total_match: 2,
            total_win: 0,
            avg_kills: 1,
            avg_deaths: 2,
            avg_assists: 3,
        },
    ];
    let snapshot = get_live_game_data(&game, &records, &get_summoners_live_stats(&rows));
    assert_eq!(snapshot.participants.len(), 2);
    let a = &snapshot.participants[0];
    assert_eq!(a.summoner_id, 1);
    assert_eq!(a.puuid, Puuid::new("a"));
    assert_eq!(a.champion_id, 10);
    assert_eq!(a.summoner_spell1_id, 4);
    assert_eq!(a.summoner_spell2_id, 14);
    assert_eq!(a.perk_primary_selection_id, 8005);
    assert_eq!(a.perk_sub_style_id, 8100);
    assert_eq!(a.game_name, "name1");
    assert_eq!(a.tag_line, "tag1");
    assert_eq!(a.platform, "NA1");
    assert_eq!(a.summoner_level, 101);
    assert_eq!(a.team_id, 100);
    assert_eq!(a.encounter_count, 0);
    assert_eq!(a.pro_player_slug, None);
    assert_eq!(
        a.champion_stats,
        Some(LiveGameParticipantChampionStats {
            total_champion_played: 5,
            total_champion_wins: 3,
            avg_kills: 550,
            avg_deaths: 320,
            avg_assists: 875,
        })
    );
    assert_eq!(
        a.ranked_stats,
        Some(LiveGameParticipantRankedStats { total_ranked: 7, total_ranked_wins: 3 })
    );
    let b = &snapshot.participants[1];
    assert_eq!(b.summoner_id, 2);
    assert_eq!(b.puuid, Puuid::new("b"));
    assert_eq!(b.team_id, 200);
    assert_eq!(b.champion_stats, None);
    assert_eq!(b.ranked_stats, None);
    assert_eq!(b.pro_player_slug, Some(ProPlayerSlug::new("the-pro")));
}

#[test]
fn missing_perks_read_as_zero() {
    let mut none = asm_participant(Some("a"), 1, 100);
    none.perks = None;
    let mut empty = asm_participant(Some("b"), 2, 100);
    empty.perks = Some(Perks { perk_ids: Vec::new(), perk_sub_style: 8300 });
    let game = asm_game(vec![none, empty]);
    let records = vec![asm_record(1, "a"), asm_record(2, "b")];
    let snapshot = get_live_game_data(&game, &records, &get_summoners_live_stats(&Vec::new()));
    assert_eq!(snapshot.participants[0].perk_primary_selection_id, 0);
    assert_eq!(snapshot.participants[0].perk_sub_style_id, 0);
    assert_eq!(snapshot.participants[1].perk_primary_selection_id, 0);
    assert_eq!(snapshot.participants[1].perk_sub_style_id, 8300);
}

#[test]
fn encounters_are_set_where_known() {
    let game = asm_game(vec![
        asm_participant(Some("a"), 10, 100),
        asm_participant(Some("b"), 20, 200),
        asm_participant(Some("c"), 30, 200),
    ]);
    let records = vec![asm_record(1, "a"), asm_record(2, "b"), asm_record(3, "c")];
    let snapshot = get_live_game_data(&game, &records, &get_summoners_live_stats(&Vec::new()));
    assert_eq!(summoner_ids(&snapshot), vec![1, 2, 3]);
    let mut encounters = HashMap::new();
    encounters.insert(2, 5u16);
    encounters.insert(9, 1u16);
    let seen = add_encounters(snapshot.clone(), &encounters);
    assert_eq!(seen.participants[0].encounter_count, 0);
    assert_eq!(seen.participants[1].encounter_count, 5);
    assert_eq!(seen.participants[2].encounter_count, 0);
    let mut expected = snapshot.clone();
    expected.participants[1].encounter_count = 5;
    assert_eq!(seen, expected);
    assert_eq!(add_encounters(snapshot.clone(), &HashMap::new()), snapshot);
}
