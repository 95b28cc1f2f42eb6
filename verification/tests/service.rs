use ruche::cache::LiveGameCache;
use ruche::fixed_string::Puuid;
use ruche::live_game::{
    Account, CurrentGameInfo, CurrentGameParticipant, LiveGame, ParticipantLiveStats,
    SummonerLiveModel, TempSummoner,
};
use ruche::service::{Action, Event, LiveGameError, LiveGameRequest, Phase};
use std::collections::HashMap;

/// A stand-in for the match source and the stores, counting what is asked.
struct World {
    directory: Vec<SummonerLiveModel>,
    game: Option<CurrentGameInfo>,
    fetch_fails: bool,
    accounts_that_fail: Vec<String>,
    encounters: HashMap<i32, HashMap<i32, u16>>,
    rows: Vec<ParticipantLiveStats>,
    fetches: usize,
    lookups: Vec<String>,
    inserts: Vec<Vec<TempSummoner>>,
    encounter_queries: usize,
    stats_queries: usize,
}

fn world(known: &[&str], game: Option<CurrentGameInfo>) -> World {
    let mut directory = Vec::new();
    let mut id = 1;
    for puuid in known {
        directory.push(SummonerLiveModel {
            id,
            game_name: format!("name-{}", puuid),
            tag_line: "T".to_string(),
            puuid: puuid.to_string(),
            platform: "EUW1".to_string(),
            summoner_level: 30,
            pro_slug: None,
        });
        id += 1;
    }
    World {
        directory,
        game,
        fetch_fails: false,
        accounts_that_fail: Vec::new(),
        encounters: HashMap::new(),
        rows: Vec::new(),
        fetches: 0,
        lookups: Vec::new(),
        inserts: Vec::new(),
        encounter_queries: 0,
        stats_queries: 0,
    }
}

fn ten_player_game() -> CurrentGameInfo {
    let mut participants = Vec::new();
    for i in 0..10 {
        participants.push(CurrentGameParticipant {
            puuid: Some(format!("player{}", i)),
            champion_id: 10 + i as i32,
            spell1_id: 4,
            spell2_id: 7,
            team_id: if i < 5 { 100 } else { 200 },
            profile_icon_id: 500 + i as i64,
            perks: None,
        });
    }
    CurrentGameInfo {
        game_id: 123456,
        platform_id: "EUW1".to_string(),
        game_length: 300,
        map_id: 11,
        game_queue_config_id: Some(420),
        participants,
    }
}

fn find_all(world: &World, puuids: &[String]) -> Vec<SummonerLiveModel> {
    world.directory.iter().filter(|r| puuids.contains(&r.puuid)).cloned().collect()
}

fn run(
    world: &mut World,
    cache: &mut LiveGameCache,
    viewer: i32,
    now: u64,
) -> Result<Option<LiveGame>, LiveGameError> {
    let mut request = LiveGameRequest::new(viewer, "EUW1".to_string());
    let mut event = Event::Start;
    for _ in 0..20 {
        let (next, action) = request.step(event, cache, now, 1700000000);
        request = next;
        event = match action {
            Action::Done { result } => {
                assert_eq!(request.phase, Phase::Finished);
                return result;
            }
            Action::FindViewer { summoner_id } => Event::ViewerFound {
                puuid: world.directory.iter().find(|r| r.id == summoner_id).map(|r| r.puuid.clone()),
            },
            Action::FetchCurrentGame { .. } => {
                world.fetches += 1;
                if world.fetch_fails {
                    Event::FetchFailed
                } else {
                    Event::GameFetched { game: world.game.clone() }
                }
            }
            Action::FindPlayers { puuids } => Event::PlayersFound { players: find_all(world, &puuids) },
            Action::LookUpAccounts { puuids } => {
                let mut accounts = Vec::new();
                for puuid in puuids {
                    world.lookups.push(puuid.clone());
                    if !world.accounts_that_fail.contains(&puuid) {
                        accounts.push(Account {
                            puuid: puuid.clone(),
                            game_name: Some(format!("new-{}", puuid)),
                            tag_line: Some("NEW".to_string()),
                        });
                    }
                }
                Event::AccountsFound { accounts }
            }
            Action::InsertPlayers { players } => {
                for player in &players {
                    let id = world.directory.len() as i32 + 1;
                    world.directory.push(SummonerLiveModel {
                        id,
                        game_name: player.game_name.clone(),
                        tag_line: player.tag_line.clone(),
                        puuid: player.puuid.clone(),
                        platform: player.platform.clone(),
                        summoner_level: player.summoner_level as i32,
                        pro_slug: None,
                    });
                }
                world.inserts.push(players);
                Event::PlayersInserted
            }
            Action::QueryStats { .. } => {
                world.stats_queries += 1;
                Event::StatsFound { rows: world.rows.clone() }
            }
            Action::CountEncounters { summoner_id, .. } => {
                world.encounter_queries += 1;
                Event::EncountersCounted {
                    encounters: world.encounters.get(&summoner_id).cloned().unwrap_or_default(),
                }
            }
        };
    }
    panic!("the request did not end");
}

#[test]
fn unknown_viewer_is_not_found() {
    let mut w = world(&["player0"], Some(ten_player_game()));
    let mut cache = LiveGameCache::new(60);
    assert_eq!(run(&mut w, &mut cache, 77, 0), Err(LiveGameError::PlayerNotFound));
    assert_eq!(w.fetches, 0);
}

#[test]
fn viewer_without_match_has_no_live_game() {
    let mut w = world(&["player0"], None);
    let mut cache = LiveGameCache::new(60);
    assert_eq!(run(&mut w, &mut cache, 1, 0), Ok(None));
    assert_eq!(w.fetches, 1);
    assert_eq!(cache.len(), 0);
}

#[test]
fn upstream_failure_reads_as_no_live_game() {
    let mut w = world(&["player0"], Some(ten_player_game()));
    w.fetch_fails = true;
    let mut cache = LiveGameCache::new(60);
    assert_eq!(run(&mut w, &mut cache, 1, 0), Ok(None));
    assert_eq!(cache.len(), 0);
}

#[test]
fn miss_with_two_unknown_players_discovers_both() {
    let mut w = world(&["player0", "player1", "player2", "player3", "player4", "player5", "player6", "player7"], Some(ten_player_game()));
    let mut cache = LiveGameCache::new(60);
    let game = run(&mut w, &mut cache, 1, 1000).unwrap().unwrap();
    assert_eq!(w.lookups, vec!["player8".to_string(), "player9".to_string()]);
    assert_eq!(w.inserts.len(), 1);
    assert_eq!(w.inserts[0].len(), 2);
    assert_eq!(w.inserts[0][0].puuid, "player8");
    assert_eq!(w.inserts[0][0].game_name, "new-player8");
    assert_eq!(w.inserts[0][0].tag_line, "NEW");
    assert_eq!(w.inserts[0][0].platform, "EUW1");
    assert_eq!(w.inserts[0][0].summoner_level, 0);
    assert_eq!(w.inserts[0][0].profile_icon_id, 508);
    assert_eq!(w.inserts[0][0].updated_at, 1700000000);
    assert_eq!(w.inserts[0][1].puuid, "player9");
    assert_eq!(game.participants.len(), 10);
    assert_eq!(game.game_id.as_ref(), "123456_EUW1");
    assert_eq!(game.participants[8].game_name, "new-player8");
    assert_eq!(game.participants[8].summoner_id, 9);
    assert_eq!(cache.len(), 10);
    for i in 0..10 {
        let found = cache.get_game_data(&Puuid::new(&format!("player{}", i)), 1059).unwrap();
        assert_eq!(*found, game);
    }
}

#[test]
fn failed_lookup_leaves_the_player_out() {
    let mut w = world(&["player0", "player1", "player2", "player3", "player4", "player5", "player6", "player7"], Some(ten_player_game()));
    w.accounts_that_fail = vec!["player9".to_string()];
    let mut cache = LiveGameCache::new(60);
    let game = run(&mut w, &mut cache, 1, 1000).unwrap().unwrap();
    assert_eq!(w.lookups.len(), 2);
    assert_eq!(w.inserts.len(), 1);
    assert_eq!(w.inserts[0].len(), 1);
    assert_eq!(game.participants.len(), 9);
    assert_eq!(cache.len(), 9);
    assert!(cache.get_game_data(&Puuid::new("player9"), 1001).is_none());
    assert!(cache.get_game_data(&Puuid::new("player8"), 1001).is_some());
}

#[test]
fn no_lookup_succeeds_and_nothing_is_inserted() {
    let mut w = world(&["player0", "player1", "player2", "player3", "player4", "player5", "player6", "player7"], Some(ten_player_game()));
    w.accounts_that_fail = vec!["player8".to_string(), "player9".to_string()];
    let mut cache = LiveGameCache::new(60);
    let game = run(&mut w, &mut cache, 1, 1000).unwrap().unwrap();
    assert!(w.inserts.is_empty());
    assert_eq!(game.participants.len(), 8);
}

#[test]
fn known_players_are_never_looked_up_or_inserted() {
    let all = ["player0", "player1", "player2", "player3", "player4", "player5", "player6", "player7", "player8", "player9"];
    let mut w = world(&all, Some(ten_player_game()));
    let mut cache = LiveGameCache::new(60);
    let game = run(&mut w, &mut cache, 1, 1000).unwrap().unwrap();
    assert!(w.lookups.is_empty());
    assert!(w.inserts.is_empty());
    assert_eq!(w.directory.len(), 10);
    assert_eq!(game.participants.len(), 10);
}

#[test]
fn cache_hit_skips_the_match_source_and_counts_encounters_again() {
    let all = ["player0", "player1", "player2", "player3", "player4", "player5", "player6", "player7", "player8", "player9"];
    let mut w = world(&all, Some(ten_player_game()));
    let mut first = HashMap::new();
    first.insert(3, 4u16);
    let mut second = HashMap::new();
    second.insert(3, 9u16);
    second.insert(1, 2u16);
    w.encounters.insert(1, first);
    w.encounters.insert(2, second);
    let mut cache = LiveGameCache::new(60);
    let seen_by_first = run(&mut w, &mut cache, 1, 1000).unwrap().unwrap();
    assert_eq!(w.fetches, 1);
    assert_eq!(w.encounter_queries, 1);
    let seen_by_second = run(&mut w, &mut cache, 2, 1010).unwrap().unwrap();
    assert_eq!(w.fetches, 1);
    assert_eq!(w.stats_queries, 1);
    assert_eq!(w.encounter_queries, 2);
    assert_eq!(seen_by_first.participants[2].encounter_count, 4);
    assert_eq!(seen_by_second.participants[2].encounter_count, 9);
    assert_eq!(seen_by_first.participants[0].encounter_count, 0);
    assert_eq!(seen_by_second.participants[0].encounter_count, 2);
    let stored = cache.get_game_data(&Puuid::new("player2"), 1010).unwrap();
    assert_eq!(stored.participants[2].encounter_count, 0);
    let mut without_counts = seen_by_second.clone();
    for p in without_counts.participants.iter_mut() {
        p.encounter_count = 0;
    }
    assert_eq!(*stored, without_counts);
}

#[test]
fn expired_entry_is_fetched_again() {
    let all = ["player0", "player1", "player2", "player3", "player4", "player5", "player6", "player7", "player8", "player9"];
    let mut w = world(&all, Some(ten_player_game()));
    let mut cache = LiveGameCache::new(60);
    run(&mut w, &mut cache, 1, 1000).unwrap().unwrap();
    run(&mut w, &mut cache, 1, 1059).unwrap().unwrap();
    assert_eq!(w.fetches, 1);
    run(&mut w, &mut cache, 1, 1060).unwrap().unwrap();
    assert_eq!(w.fetches, 2);
}

#[test]
fn store_failure_is_an_error() {
    let mut cache = LiveGameCache::new(60);
    let request = LiveGameRequest::new(1, "EUW1".to_string());
    let (request, _) = request.step(Event::Start, &mut cache, 0, 0);
    let (request, action) = request.step(Event::StoreFailed, &mut cache, 0, 0);
    assert_eq!(action, Action::Done { result: Err(LiveGameError::Store) });
    assert_eq!(request.phase, Phase::Finished);
}

#[test]
fn event_that_was_not_asked_for_ends_the_request() {
    let mut cache = LiveGameCache::new(60);
    let request = LiveGameRequest::new(1, "EUW1".to_string());
    let (request, action) = request.step(Event::PlayersInserted, &mut cache, 0, 0);
    assert_eq!(action, Action::Done { result: Err(LiveGameError::UnexpectedEvent) });
    let (_, action) = request.step(Event::Start, &mut cache, 0, 0);
    assert_eq!(action, Action::Done { result: Err(LiveGameError::UnexpectedEvent) });
}

#[test]
fn first_step_asks_for_the_viewer() {
    let mut cache = LiveGameCache::new(60);
    let request = LiveGameRequest::new(42, "EUW1".to_string());
    let (request, action) = request.step(Event::Start, &mut cache, 0, 0);
    assert_eq!(action, Action::FindViewer { summoner_id: 42 });
    assert_eq!(request.phase, Phase::AwaitViewer);
    let (request, action) =
        request.step(Event::ViewerFound { puuid: Some("abc".to_string()) }, &mut cache, 0, 0);
    assert_eq!(action, Action::FetchCurrentGame { puuid: "abc".to_string() });
    assert_eq!(request.phase, Phase::AwaitGame { puuid: "abc".to_string() });
}
