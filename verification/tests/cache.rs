use ruche::cache::LiveGameCache;
use ruche::fixed_string::{Puuid, RiotMatchId};
use ruche::live_game::{LiveGame, LiveGameParticipant, Queue};
use std::sync::Arc;

fn cache_participant(summoner_id: i32, puuid: &str) -> LiveGameParticipant {
    LiveGameParticipant {
        summoner_id,
        puuid: Puuid::new(puuid),
        champion_id: 1,
        summoner_spell1_id: 4,
        summoner_spell2_id: 14,
        perk_primary_selection_id: 8005,
        perk_sub_style_id: 8100,
        game_name: format!("player{}", summoner_id),
        tag_line: "EUW".to_string(),
        platform: "EUW1".to_string(),
        summoner_level: 30,
        team_id: 100,
        ranked_stats: None,
        champion_stats: None,
        encounter_count: 0,
        pro_player_slug: None,
    }
}

fn cache_game(id: &str, puuids: &[&str]) -> LiveGame {
    let mut participants = Vec::new();
    let mut n = 1;
    for p in puuids {
        participants.push(cache_participant(n, p));
        n += 1;
    }
    LiveGame {
        game_id: RiotMatchId::new(id),
        game_length: 120,
        game_map: 11,
        queue: Queue::Id(420),
        participants,
    }
}

fn cache_keys(puuids: &[&str]) -> Vec<Puuid> {
    puuids.iter().map(|p| Puuid::new(p)).collect()
}

#[test]
fn empty_cache_finds_nothing() {
    let cache = LiveGameCache::new(60);
    assert_eq!(cache.len(), 0);
    assert!(cache.get_game_data(&Puuid::new("a"), 0).is_none());
}

#[test]
fn every_participant_finds_the_same_snapshot() {
    let mut cache = LiveGameCache::new(60);
    let ids = ["player1", "player2", "player3", "player4", "player5", "player6", "player7", "player8", "player9", "player10"];
    let game = cache_game("123_EUW1", &ids);
    cache.set_game_data(game.game_id, cache_keys(&ids), game.clone(), 1000);
    assert_eq!(cache.len(), 10);
    let first = cache.get_game_data(&Puuid::new("player1"), 1001).unwrap();
    for id in ids {
        let found = cache.get_game_data(&Puuid::new(id), 1001).unwrap();
        assert_eq!(*found, game);
        assert!(Arc::ptr_eq(&first, &found));
    }
}

#[test]
fn unknown_identity_is_absent() {
    let mut cache = LiveGameCache::new(60);
    let game = cache_game("123_EUW1", &["player1"]);
    cache.set_game_data(game.game_id, cache_keys(&["player1"]), game, 1000);
    assert!(cache.get_game_data(&Puuid::new("player2"), 1000).is_none());
}

#[test]
fn entry_is_absent_once_its_time_has_passed_without_a_sweep() {
    let mut cache = LiveGameCache::new(60);
    let game = cache_game("123_EUW1", &["player1", "player2"]);
    cache.set_game_data(game.game_id, cache_keys(&["player1", "player2"]), game, 1000);
    assert!(cache.get_game_data(&Puuid::new("player1"), 1059).is_some());
    assert!(cache.get_game_data(&Puuid::new("player1"), 1060).is_none());
    assert!(cache.get_game_data(&Puuid::new("player2"), 5000).is_none());
    assert_eq!(cache.len(), 2);
}

#[test]
fn sweep_removes_expired_entries_only() {
    let mut cache = LiveGameCache::new(60);
    let old = cache_game("1_EUW1", &["a", "b"]);
    let new = cache_game("2_EUW1", &["c", "d"]);
    cache.set_game_data(old.game_id, cache_keys(&["a", "b"]), old, 1000);
    cache.set_game_data(new.game_id, cache_keys(&["c", "d"]), new.clone(), 1030);
    cache.remove_expired(1060);
    assert_eq!(cache.len(), 2);
    assert!(cache.get_game_data(&Puuid::new("a"), 1060).is_none());
    assert!(cache.get_game_data(&Puuid::new("b"), 1060).is_none());
    assert_eq!(*cache.get_game_data(&Puuid::new("c"), 1060).unwrap(), new);
    assert_eq!(*cache.get_game_data(&Puuid::new("d"), 1089).unwrap(), new);
    cache.remove_expired(1090);
    assert_eq!(cache.len(), 0);
}

#[test]
fn sweep_keeps_what_is_stored_at_its_own_time() {
    let mut cache = LiveGameCache::new(30);
    let game = cache_game("1_EUW1", &["a"]);
    cache.set_game_data(game.game_id, cache_keys(&["a"]), game, 500);
    cache.remove_expired(500);
    assert_eq!(cache.len(), 1);
    assert!(cache.get_game_data(&Puuid::new("a"), 529).is_some());
}

#[test]
fn storing_again_replaces_the_entry_and_its_expiry() {
    let mut cache = LiveGameCache::new(60);
    let first = cache_game("1_EUW1", &["a", "b"]);
    let second = cache_game("2_EUW1", &["b", "c"]);
    cache.set_game_data(first.game_id, cache_keys(&["a", "b"]), first.clone(), 1000);
    cache.set_game_data(second.game_id, cache_keys(&["b", "c"]), second.clone(), 1050);
    assert_eq!(cache.len(), 3);
    assert_eq!(*cache.get_game_data(&Puuid::new("a"), 1055).unwrap(), first);
    assert_eq!(*cache.get_game_data(&Puuid::new("b"), 1055).unwrap(), second);
    assert_eq!(*cache.get_game_data(&Puuid::new("c"), 1055).unwrap(), second);
    assert!(cache.get_game_data(&Puuid::new("a"), 1060).is_none());
    assert!(cache.get_game_data(&Puuid::new("b"), 1109).is_some());
    assert!(cache.get_game_data(&Puuid::new("b"), 1110).is_none());
}

#[test]
fn storing_under_no_identity_changes_nothing() {
    let mut cache = LiveGameCache::new(60);
    let game = cache_game("1_EUW1", &[]);
    cache.set_game_data(game.game_id, Vec::new(), game, 1000);
    assert_eq!(cache.len(), 0);
}

#[test]
fn storing_one_identity_twice_keeps_one_entry() {
    let mut cache = LiveGameCache::new(60);
    let game = cache_game("1_EUW1", &["a"]);
    cache.set_game_data(game.game_id, cache_keys(&["a", "a"]), game, 1000);
    assert_eq!(cache.len(), 1);
}

#[test]
fn zero_time_to_live_stores_entries_that_are_never_found() {
    let mut cache = LiveGameCache::new(0);
    let game = cache_game("1_EUW1", &["a"]);
    cache.set_game_data(game.game_id, cache_keys(&["a"]), game, 1000);
    assert!(cache.get_game_data(&Puuid::new("a"), 1000).is_none());
    cache.remove_expired(1000);
    assert_eq!(cache.len(), 0);
}

#[test]
fn expiry_is_held_at_the_last_time() {
    let mut cache = LiveGameCache::new(100);
    let game = cache_game("1_EUW1", &["a"]);
    cache.set_game_data(game.game_id, cache_keys(&["a"]), game, u64::MAX - 10);
    assert!(cache.get_game_data(&Puuid::new("a"), u64::MAX - 1).is_some());
    assert!(cache.get_game_data(&Puuid::new("a"), u64::MAX).is_none());
}

#[test]
fn copy_of_a_snapshot_has_the_same_value() {
    let game = cache_game("1_EUW1", &["a", "b"]);
    let copy = game.duplicate();
    assert_eq!(copy, game);
    assert_eq!(game.participants[1].duplicate(), game.participants[1]);
}
