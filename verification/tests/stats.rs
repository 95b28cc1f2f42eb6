use ruche::live_game::{
    LiveGameParticipantChampionStats, LiveGameParticipantRankedStats, ParticipantLiveStats,
};
use ruche::stats::get_summoners_live_stats;

fn stats_row(summoner_id: i32, champion_id: i32, total_match: i64, total_win: i64) -> ParticipantLiveStats {
    ParticipantLiveStats {
        summoner_id,
        champion_id,
        total_match,
        total_win,
        avg_kills: 550,
        avg_deaths: 320,
        avg_assists: 875,
    }
}

#[test]
fn player_without_rows_has_no_stats() {
    let table = get_summoners_live_stats(&vec![stats_row(1, 10, 5, 3)]);
    assert_eq!(table.champion_stats(2, 10), None);
    assert_eq!(table.ranked_stats(2), None);
    let empty = get_summoners_live_stats(&Vec::new());
    assert_eq!(empty.champion_stats(1, 10), None);
    assert_eq!(empty.ranked_stats(1), None);
}

#[test]
fn player_with_two_champions_has_two_entries() {
    let mut second = stats_row(1, 20, 7, 2);
    second.avg_kills = 100;
    second.avg_deaths = 200;
    second.avg_assists = 300;
    let table = get_summoners_live_stats(&vec![stats_row(1, 10, 5, 3), second, stats_row(2, 10, 9, 9)]);
    assert_eq!(
        table.champion_stats(1, 10),
        Some(LiveGameParticipantChampionStats {
            total_champion_played: 5,
            total_champion_wins: 3,
            avg_kills: 550,
            avg_deaths: 320,
            avg_assists: 875,
        })
    );
    assert_eq!(
        table.champion_stats(1, 20),
        Some(LiveGameParticipantChampionStats {
            total_champion_played: 7,
            total_champion_wins: 2,
            avg_kills: 100,
            avg_deaths: 200,
            avg_assists: 300,
        })
    );
    assert_eq!(table.champion_stats(1, 30), None);
    assert_eq!(
        table.ranked_stats(1),
        Some(LiveGameParticipantRankedStats { total_ranked: 12, total_ranked_wins: 5 })
    );
    assert_eq!(
        table.ranked_stats(2),
        Some(LiveGameParticipantRankedStats { total_ranked: 9, total_ranked_wins: 9 })
    );
}

#[test]
fn later_row_replaces_the_earlier_one() {
    let table = get_summoners_live_stats(&vec![
        stats_row(1, 10, 5, 3),
        stats_row(1, 20, 1, 1),
        stats_row(1, 10, 8, 4),
    ]);
    assert_eq!(table.champion_stats(1, 10).unwrap().total_champion_played, 8);
    assert_eq!(
        table.ranked_stats(1),
        Some(LiveGameParticipantRankedStats { total_ranked: 9, total_ranked_wins: 5 })
    );
}

#[test]
fn rows_without_games_give_no_ranked_summary() {
    let table = get_summoners_live_stats(&vec![stats_row(1, 10, 0, 0)]);
    assert_eq!(table.ranked_stats(1), None);
    assert_eq!(table.champion_stats(1, 10).unwrap().total_champion_played, 0);
}

#[test]
fn counts_keep_their_low_sixteen_bits() {
    let table = get_summoners_live_stats(&vec![stats_row(1, 10, 65536 + 7, 65535), stats_row(1, 11, 1, 2)]);
    let stats = table.champion_stats(1, 10).unwrap();
    assert_eq!(stats.total_champion_played, 7);
    assert_eq!(stats.total_champion_wins, 65535);
    assert_eq!(
        table.ranked_stats(1),
        Some(LiveGameParticipantRankedStats { total_ranked: 8, total_ranked_wins: 1 })
    );
}

#[test]
fn totals_of_the_largest_counts_do_not_overflow() {
    let table = get_summoners_live_stats(&vec![
        stats_row(1, 10, i64::MAX, i64::MAX),
        stats_row(1, 11, i64::MAX, i64::MIN),
    ]);
    assert_eq!(
        table.ranked_stats(1),
        Some(LiveGameParticipantRankedStats { total_ranked: 65534, total_ranked_wins: 65535 })
    );
}
