use ruche::encounters::{
    effective_search, encounters_query, fragment_text, join_encounters, page_count, page_offset,
    search_pattern, EncounterBind, EncounterFilters, EncounterSummoner, Fragment,
    LolSummonerEncounterModel, QueryPiece, SummonerEncountersSummoner,
};
use ruche::fixed_string::ProPlayerSlug;
use ruche::match_details::{
    pro_player_url, result_label, row_class, shows_encounters, split_teams, team_label, TeamMember,
};
use ruche::summoner::{Summoner, SummonerModel};

fn member(summoner_id: i32, team_id: u16, won: bool) -> TeamMember {
    TeamMember { summoner_id, team_id, won }
}

fn no_filters() -> EncounterFilters {
    EncounterFilters { search: false, champion: false, queue: false, start_date: false, end_date: false }
}

fn render(pieces: &[QueryPiece]) -> String {
    let mut out = String::new();
    let mut n = 0;
    for piece in pieces {
        match piece {
            QueryPiece::Sql(fragment) => out.push_str(fragment_text(*fragment)),
            QueryPiece::Bind(_) => {
                n += 1;
                out.push_str(&format!("${}", n));
            }
        }
    }
    out
}

fn encounter_row(summoner_id: i32, total_count: i64) -> LolSummonerEncounterModel {
    LolSummonerEncounterModel {
        summoner_id,
        match_count: 5,
        total_count,
        with_match_count: 3,
        with_win_count: 2,
        vs_match_count: 2,
        vs_win_count: 1,
    }
}

fn encounter_summoner(id: i32, profile_icon_id: i32) -> EncounterSummoner {
    EncounterSummoner {
        id,
        game_name: format!("name{}", id),
        tag_line: format!("tag{}", id),
        platform: "EUW1".to_string(),
        profile_icon_id,
    }
}

#[test]
fn teams_are_split_with_the_viewers_team_first() {
    let details = vec![
        member(1, 100, false),
        member(2, 200, true),
        member(3, 100, false),
        member(4, 200, true),
        member(5, 200, true),
    ];
    let split = split_teams(&details, 4).unwrap();
    assert_eq!(split.team_id, 200);
    assert!(split.won);
    assert_eq!(split.other_team_id, 100);
    assert_eq!(split.own, vec![1, 3, 4]);
    assert_eq!(split.other, vec![0, 2]);
    let split = split_teams(&details, 1).unwrap();
    assert_eq!(split.team_id, 100);
    assert!(!split.won);
    assert_eq!(split.other_team_id, 200);
    assert_eq!(split.own, vec![0, 2]);
    assert_eq!(split.other, vec![1, 3, 4]);
}

#[test]
fn teams_are_not_split_without_the_viewer() {
    let details = vec![member(1, 100, false), member(2, 200, true)];
    assert_eq!(split_teams(&details, 9), None);
    assert_eq!(split_teams(&Vec::new(), 1), None);
}

#[test]
fn team_that_is_not_blue_faces_blue() {
    let details = vec![member(1, 300, true), member(2, 100, false)];
    let split = split_teams(&details, 1).unwrap();
    assert_eq!(split.other_team_id, 100);
    assert_eq!(split.own, vec![0]);
    assert_eq!(split.other, vec![1]);
}

#[test]
fn rows_are_marked_by_outcome_and_viewer() {
    assert_eq!(row_class(true, true), "bg-blue-800");
    assert_eq!(row_class(true, false), "bg-blue-900");
    assert_eq!(row_class(false, true), "bg-red-800");
    assert_eq!(row_class(false, false), "bg-red-900");
    assert_eq!(result_label(true), "Victory");
    assert_eq!(result_label(false), "Defeat");
    assert_eq!(team_label(100), "(Blue Team)");
    assert_eq!(team_label(200), "(Red Team)");
    assert_eq!(team_label(0), "(Red Team)");
}

#[test]
fn encounters_are_linked_from_the_second_on() {
    assert!(!shows_encounters(0));
    assert!(!shows_encounters(1));
    assert!(shows_encounters(2));
    assert!(shows_encounters(u16::MAX));
}

#[test]
fn notable_player_has_an_outside_page() {
    assert_eq!(pro_player_url("faker"), "https://lolpros.gg/player/faker");
    assert_eq!(pro_player_url(""), "https://lolpros.gg/player/");
}

#[test]
fn query_without_filters_binds_viewer_twice_and_offset() {
    let pieces = encounters_query(no_filters());
    assert_eq!(
        pieces,
        vec![
            QueryPiece::Sql(Fragment::Select),
            QueryPiece::Sql(Fragment::JoinViewer),
            QueryPiece::Bind(EncounterBind::Viewer),
            QueryPiece::Sql(Fragment::WhereOthers),
            QueryPiece::Bind(EncounterBind::Viewer),
            QueryPiece::Sql(Fragment::GroupAndPage),
            QueryPiece::Bind(EncounterBind::Offset),
        ]
    );
    let sql = render(&pieces);
    assert!(sql.starts_with("SELECT lmp.summoner_id, COUNT(*) AS match_count"));
    assert!(sql.ends_with(
        "FROM lol_match_participants lmp JOIN lol_match_participants tm ON lmp.lol_match_id = tm.lol_match_id AND tm.summoner_id = $1 WHERE lmp.summoner_id != $2 GROUP BY lmp.summoner_id ORDER BY match_count DESC LIMIT 40 OFFSET $3"
    ));
}

#[test]
fn query_with_every_filter() {
    let pieces = encounters_query(EncounterFilters {
        search: true,
        champion: true,
        queue: true,
        start_date: true,
        end_date: true,
    });
    let binds: Vec<EncounterBind> = pieces
        .iter()
        .filter_map(|p| match p {
            QueryPiece::Bind(b) => Some(*b),
            QueryPiece::Sql(_) => None,
        })
        .collect();
    assert_eq!(
        binds,
        vec![
            EncounterBind::Viewer,
            EncounterBind::Champion,
            EncounterBind::Viewer,
            EncounterBind::Search,
            EncounterBind::Queue,
            EncounterBind::StartDate,
            EncounterBind::EndDate,
            EncounterBind::Offset,
        ]
    );
    let sql = render(&pieces);
    assert!(sql.ends_with(
        "FROM lol_match_participants lmp  LEFT JOIN summoners ss on lmp.summoner_id = ss.id JOIN lol_match_participants tm ON lmp.lol_match_id = tm.lol_match_id AND tm.summoner_id = $1 AND tm.champion_id = $2 JOIN lol_matches lm ON lm.id = lmp.lol_match_id  WHERE lmp.summoner_id != $3 and ss.game_name ilike $4 AND lm.queue_id = $5 AND lm.match_end >= $6 AND lm.match_end <= $7 GROUP BY lmp.summoner_id ORDER BY match_count DESC LIMIT 40 OFFSET $8"
    ));
}

#[test]
fn matches_are_joined_only_where_something_reads_them() {
    let mut filters = no_filters();
    filters.champion = true;
    assert!(!encounters_query(filters).contains(&QueryPiece::Sql(Fragment::JoinMatches)));
    filters.end_date = true;
    assert!(encounters_query(filters).contains(&QueryPiece::Sql(Fragment::JoinMatches)));
    let mut search = no_filters();
    search.search = true;
    let pieces = encounters_query(search);
    assert!(pieces.contains(&QueryPiece::Sql(Fragment::JoinMatches)));
    assert!(pieces.contains(&QueryPiece::Sql(Fragment::JoinSummoners)));
}

#[test]
fn pages_start_at_one() {
    assert_eq!(page_offset(1), 0);
    assert_eq!(page_offset(2), 40);
    assert_eq!(page_offset(10), 360);
    assert_eq!(page_offset(0), 0);
    assert_eq!(page_offset(-3), 0);
    assert_eq!(page_offset(i32::MAX), 85899345840);
}

#[test]
fn last_page_may_be_filled_in_part() {
    assert_eq!(page_count(0), 0);
    assert_eq!(page_count(1), 1);
    assert_eq!(page_count(40), 1);
    assert_eq!(page_count(41), 2);
    assert_eq!(page_count(80), 2);
    assert_eq!(page_count(-1), 0);
    assert_eq!(page_count(i64::MAX), 230584300921369396);
}

#[test]
fn empty_search_is_no_search() {
    assert_eq!(effective_search(None), None);
    assert_eq!(effective_search(Some(String::new())), None);
    assert_eq!(effective_search(Some("abc".to_string())), Some("abc".to_string()));
    assert_eq!(search_pattern("abc"), "%abc%");
    assert_eq!(search_pattern(""), "%%");
}

#[test]
fn rows_are_joined_with_their_players() {
    let rows = vec![encounter_row(2, 81), encounter_row(1, 81)];
    let summoners = vec![encounter_summoner(1, 7), encounter_summoner(2, 65536 + 9)];
    let page = join_encounters(&rows, &summoners).unwrap();
    assert_eq!(page.total_pages, 3);
    assert_eq!(
        page.encounters,
        vec![
            SummonerEncountersSummoner {
                id: 2,
                match_count: 5,
                with_match_count: 3,
                with_win_count: 2,
                vs_match_count: 2,
                vs_win_count: 1,
                game_name: "name2".to_string(),
                tag_line: "tag2".to_string(),
                platform: "EUW1".to_string(),
                profile_icon_id: 9,
            },
            SummonerEncountersSummoner {
                id: 1,
                match_count: 5,
                with_match_count: 3,
                with_win_count: 2,
                vs_match_count: 2,
                vs_win_count: 1,
                game_name: "name1".to_string(),
                tag_line: "tag1".to_string(),
                platform: "EUW1".to_string(),
                profile_icon_id: 7,
            },
        ]
    );
}

#[test]
fn no_rows_make_no_pages() {
    let page = join_encounters(&Vec::new(), &Vec::new()).unwrap();
    assert_eq!(page.total_pages, 0);
    assert!(page.encounters.is_empty());
}

#[test]
fn row_without_player_gives_no_result() {
    let rows = vec![encounter_row(1, 2), encounter_row(3, 2)];
    let summoners = vec![encounter_summoner(1, 7)];
    assert_eq!(join_encounters(&rows, &summoners), None);
}

#[test]
fn stored_player_becomes_page_player() {
    let model = SummonerModel {
        id: 12,
        game_name: "Hide on bush".to_string(),
        tag_line: "KR1".to_string(),
        puuid: "puuid".to_string(),
        platform: "KR".to_string(),
        updated_at: "2024-10-01 12:00:00".to_string(),
        summoner_level: 65536 + 700,
        profile_icon_id: 6,
        pro_slug: Some("faker".to_string()),
    };
    let summoner = Summoner::from_model(&model);
    assert_eq!(
        summoner,
        Summoner {
            id: 12,
            game_name: "Hide on bush".to_string(),
            pro_slug: Some(ProPlayerSlug::new("faker")),
            tag_line: "KR1".to_string(),
            profile_icon_id: 6,
            summoner_level: 700,
            platform: "KR".to_string(),
        }
    );
    assert_eq!(summoner.to_route_path(), "/platform/KR/summoners/Hide%20on%20bush-KR1");
}
