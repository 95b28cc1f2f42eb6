//! History of players over the ranked window, by player and champion.

use crate::live_game::{
    LiveGameParticipantChampionStats, LiveGameParticipantRankedStats, ParticipantLiveStats,
};
use std::collections::HashMap;
use vstd::prelude::*;
use vstd::std_specs::hash::group_hash_axioms;

verus! {

broadcast use group_hash_axioms;

/// Queue of the ranked matches: the only ones that count as history.
pub const RANKED_QUEUE_ID: i32 = 420;

/// Start of the ranked window, as a timestamp without zone: a match that
/// ended before it does not count as history.
pub const RANKED_WINDOW_START: &'static str = "2024-09-25 12:00:00";

/// The history by player: for each player that has any, its rows, one per
/// champion, in the order in which the champions were first seen.
pub type StatsModel = Map<i32, Seq<ParticipantLiveStats>>;

/// Index of the row of `champion_id` in `rows`, or the number of rows where
/// there is none.
pub open spec fn champion_index(rows: Seq<ParticipantLiveStats>, champion_id: i32) -> int
    decreases rows.len(),
{
    if rows.len() == 0 {
        0
    } else if rows.first().champion_id == champion_id {
        0
    } else {
        1 + champion_index(rows.drop_first(), champion_id)
    }
}

/// `rows` with `row` in place of the row of its champion, or at the end
/// where its champion has none.
pub open spec fn upserted(
    rows: Seq<ParticipantLiveStats>,
    row: ParticipantLiveStats,
) -> Seq<ParticipantLiveStats> {
    let at = champion_index(rows, row.champion_id);
    if at < rows.len() {
        rows.update(at, row)
    } else {
        rows.push(row)
    }
}

/// The rows of a player, none where the player has no history.
pub open spec fn rows_of(table: StatsModel, summoner_id: i32) -> Seq<ParticipantLiveStats> {
    if table.dom().contains(summoner_id) {
        table[summoner_id]
    } else {
        Seq::empty()
    }
}

/// Rows grouped by player and champion. A later row for a player and
/// champion replaces the earlier one. A player without rows has no entry.
pub open spec fn grouped(rows: Seq<ParticipantLiveStats>) -> StatsModel
    decreases rows.len(),
{
    if rows.len() == 0 {
        Map::empty()
    } else {
        let before = grouped(rows.drop_last());
        let row = rows.last();
        before.insert(row.summoner_id, upserted(rows_of(before, row.summoner_id), row))
    }
}

/// The row of a champion, if there is one.
pub open spec fn champion_row(
    rows: Seq<ParticipantLiveStats>,
    champion_id: i32,
) -> Option<ParticipantLiveStats> {
    let at = champion_index(rows, champion_id);
    if at < rows.len() {
        Some(rows[at])
    } else {
        None
    }
}

/// What a participant shows of a row. Counts keep their low sixteen bits.
pub open spec fn champion_stats_of_row(
    row: ParticipantLiveStats,
) -> LiveGameParticipantChampionStats {
    LiveGameParticipantChampionStats {
        total_champion_played: row.total_match as u16,
        total_champion_wins: row.total_win as u16,
        avg_kills: row.avg_kills,
        avg_deaths: row.avg_deaths,
        avg_assists: row.avg_assists,
    }
}

/// History of a player on one champion: absent where the player has no row
/// for it, never a row of zeros.
pub open spec fn champion_stats_of(
    table: StatsModel,
    summoner_id: i32,
    champion_id: i32,
) -> Option<LiveGameParticipantChampionStats> {
    match champion_row(rows_of(table, summoner_id), champion_id) {
        Some(row) => Some(champion_stats_of_row(row)),
        None => None,
    }
}

/// Games over all rows.
pub open spec fn total_matches(rows: Seq<ParticipantLiveStats>) -> int
    decreases rows.len(),
{
    if rows.len() == 0 {
        0
    } else {
        total_matches(rows.drop_last()) + rows.last().total_match
    }
}

/// Wins over all rows.
pub open spec fn total_wins(rows: Seq<ParticipantLiveStats>) -> int
    decreases rows.len(),
{
    if rows.len() == 0 {
        0
    } else {
        total_wins(rows.drop_last()) + rows.last().total_win
    }
}

/// Ranked summary of a player: games and wins over all of its champions,
/// absent where the games add up to none. Totals keep their low sixteen
/// bits.
pub open spec fn ranked_stats_of(
    table: StatsModel,
    summoner_id: i32,
) -> Option<LiveGameParticipantRankedStats> {
    let rows = rows_of(table, summoner_id);
    if total_matches(rows) == 0 {
        None
    } else {
        Some(
            LiveGameParticipantRankedStats {
                total_ranked: total_matches(rows) as u16,
                total_ranked_wins: total_wins(rows) as u16,
            },
        )
    }
}

/// The history of the players of a match, for lookup by player and
/// champion.
pub struct StatsTable {
    players: HashMap<i32, Vec<ParticipantLiveStats>>,
}

impl View for StatsTable {
    type V = StatsModel;

    closed spec fn view(&self) -> StatsModel {
        self.players@.map_values(|rows: Vec<ParticipantLiveStats>| rows@)
    }
}

/// Puts `row` in place of the row of its champion, or at the end.
fn upsert(rows: &mut Vec<ParticipantLiveStats>, row: ParticipantLiveStats)
    ensures
        final(rows)@ == upserted(old(rows)@, row),
{
    let ghost before = rows@;
    let mut i: usize = 0;
    let mut found = false;
    assert(before.skip(0) =~= before);
    while i < rows.len() && !found
        invariant
            i <= rows@.len(),
            rows@ == before,
            champion_index(before, row.champion_id) == i + champion_index(
                before.skip(i as int),
                row.champion_id,
            ),
            found ==> i < before.len() && before[i as int].champion_id == row.champion_id,
        decreases rows@.len() - i + if found { 0int } else { 1int },
    {
        proof {
            let rest = before.skip(i as int);
            assert(rest.first() == before[i as int]);
            assert(rest.drop_first() =~= before.skip(i + 1));
        }
        if rows[i].champion_id == row.champion_id {
            found = true;
        } else {
            i += 1;
        }
    }
    proof {
        let rest = before.skip(i as int);
        if found {
            assert(rest.first() == before[i as int]);
        } else {
            assert(rest.len() == 0);
        }
        assert(champion_index(before, row.champion_id) == i);
    }
    if found {
        rows[i] = row;
    } else {
        rows.push(row);
    }
}

/// Groups the rows of the history query by player and champion.
pub fn get_summoners_live_stats(rows: &Vec<ParticipantLiveStats>) -> (res: StatsTable)
    ensures
        res@ == grouped(rows@),
{
    let mut players: HashMap<i32, Vec<ParticipantLiveStats>> = HashMap::new();
    let mut i: usize = 0;
    assert(players@.map_values(|r: Vec<ParticipantLiveStats>| r@) =~= grouped(rows@.take(0)));
    while i < rows.len()
        invariant
            i <= rows@.len(),
            players@.map_values(|r: Vec<ParticipantLiveStats>| r@) == grouped(rows@.take(i as int)),
        decreases rows@.len() - i,
    {
        let row = rows[i];
        let ghost before = players@.map_values(|r: Vec<ParticipantLiveStats>| r@);
        let mut list = match players.remove(&row.summoner_id) {
            Some(list) => list,
            None => Vec::new(),
        };
        assert(list@ =~= rows_of(before, row.summoner_id));
        upsert(&mut list, row);
        players.insert(row.summoner_id, list);
        proof {
            let done = rows@.take(i as int);
            let next = rows@.take(i + 1);
            assert(next.drop_last() =~= done);
            assert(next.last() == row);
            assert(players@.map_values(|r: Vec<ParticipantLiveStats>| r@) =~= before.insert(
                row.summoner_id,
                upserted(rows_of(before, row.summoner_id), row),
            ));
        }
        i += 1;
    }
    assert(rows@.take(rows@.len() as int) =~= rows@);
    StatsTable { players }
}

/// Finds the row of a champion.
fn find_champion(rows: &Vec<ParticipantLiveStats>, champion_id: i32) -> (res: Option<
    ParticipantLiveStats,
>)
    ensures
        res == champion_row(rows@, champion_id),
{
    let mut i: usize = 0;
    assert(rows@.skip(0) =~= rows@);
    while i < rows.len()
        invariant
            i <= rows@.len(),
            champion_index(rows@, champion_id) == i + champion_index(
                rows@.skip(i as int),
                champion_id,
            ),
        decreases rows@.len() - i,
    {
        proof {
            let rest = rows@.skip(i as int);
            assert(rest.first() == rows@[i as int]);
            assert(rest.drop_first() =~= rows@.skip(i + 1));
        }
        if rows[i].champion_id == champion_id {
            return Some(rows[i]);
        }
        i += 1;
    }
    assert(rows@.skip(i as int).len() == 0);
    None
}

/// Adds up games and wins over all rows.
fn sum_ranked(rows: &Vec<ParticipantLiveStats>) -> (res: (i128, i128))
    ensures
        res.0 == total_matches(rows@),
        res.1 == total_wins(rows@),
{
    let mut matches: i128 = 0;
    let mut wins: i128 = 0;
    let mut i: usize = 0;
    while i < rows.len()
        invariant
            i <= rows@.len(),
            matches == total_matches(rows@.take(i as int)),
            wins == total_wins(rows@.take(i as int)),
            -0x8000_0000_0000_0000 * i <= matches <= 0x8000_0000_0000_0000 * i,
            -0x8000_0000_0000_0000 * i <= wins <= 0x8000_0000_0000_0000 * i,
        decreases rows@.len() - i,
    {
        proof {
            let next = rows@.take(i + 1);
            assert(next.drop_last() =~= rows@.take(i as int));
            assert(next.last() == rows@[i as int]);
        }
        matches = matches + rows[i].total_match as i128;
        wins = wins + rows[i].total_win as i128;
        i += 1;
    }
    assert(rows@.take(rows@.len() as int) =~= rows@);
    (matches, wins)
}

impl StatsTable {
    /// History of a player on one champion, if the player has any for it.
    pub fn champion_stats(&self, summoner_id: i32, champion_id: i32) -> (res: Option<
        LiveGameParticipantChampionStats,
    >)
        ensures
            res == champion_stats_of(self@, summoner_id, champion_id),
    {
        match self.players.get(&summoner_id) {
            None => None,
            Some(rows) => {
                match find_champion(rows, champion_id) {
                    None => None,
                    Some(row) => Some(
                        LiveGameParticipantChampionStats {
                            total_champion_played: #[verifier::truncate] (row.total_match as u16),
                            total_champion_wins: #[verifier::truncate] (row.total_win as u16),
                            avg_kills: row.avg_kills,
                            avg_deaths: row.avg_deaths,
                            avg_assists: row.avg_assists,
                        },
                    ),
                }
            },
        }
    }

    /// Ranked summary of a player over all of its champions, if it has
    /// played any ranked game in the window.
    pub fn ranked_stats(&self, summoner_id: i32) -> (res: Option<LiveGameParticipantRankedStats>)
        ensures
            res == ranked_stats_of(self@, summoner_id),
    {
        match self.players.get(&summoner_id) {
            None => None,
            Some(rows) => {
                let (matches, wins) = sum_ranked(rows);
                if matches == 0 {
                    None
                } else {
                    Some(
                        LiveGameParticipantRankedStats {
                            total_ranked: #[verifier::truncate] (matches as u16),
                            total_ranked_wins: #[verifier::truncate] (wins as u16),
                        },
                    )
                }
            },
        }
    }
}

/// The last of `rows` that is of this player and champion, if there is one.
pub open spec fn last_row(
    rows: Seq<ParticipantLiveStats>,
    summoner_id: i32,
    champion_id: i32,
) -> Option<ParticipantLiveStats>
    decreases rows.len(),
{
    if rows.len() == 0 {
        None
    } else if rows.last().summoner_id == summoner_id && rows.last().champion_id == champion_id {
        Some(rows.last())
    } else {
        last_row(rows.drop_last(), summoner_id, champion_id)
    }
}

/// `champion_index` is the first index that holds the champion, or the
/// number of rows.
pub proof fn lemma_champion_index(rows: Seq<ParticipantLiveStats>, champion_id: i32)
    ensures
        0 <= champion_index(rows, champion_id) <= rows.len(),
        champion_index(rows, champion_id) < rows.len() ==> rows[champion_index(
            rows,
            champion_id,
        )].champion_id == champion_id,
        forall|j: int|
            0 <= j < champion_index(rows, champion_id) ==> (#[trigger] rows[j]).champion_id
                != champion_id,
    decreases rows.len(),
{
    if rows.len() > 0 && rows.first().champion_id != champion_id {
        let rest = rows.drop_first();
        lemma_champion_index(rest, champion_id);
        assert forall|j: int| 0 <= j < champion_index(rows, champion_id) implies (
        #[trigger] rows[j]).champion_id != champion_id by {
            if j > 0 {
                assert(rows[j] == rest[j - 1]);
            }
        }
    }
}

/// An index that holds the champion, with none before it, is its
/// `champion_index`.
pub proof fn lemma_champion_index_is(rows: Seq<ParticipantLiveStats>, champion_id: i32, at: int)
    requires
        0 <= at <= rows.len(),
        forall|j: int| 0 <= j < at ==> (#[trigger] rows[j]).champion_id != champion_id,
        at < rows.len() ==> rows[at].champion_id == champion_id,
    ensures
        champion_index(rows, champion_id) == at,
{
    lemma_champion_index(rows, champion_id);
    let found = champion_index(rows, champion_id);
    if found < at {
        assert(rows[found].champion_id != champion_id);
    }
    if at < found {
        assert(rows[at].champion_id != champion_id);
    }
}

/// After a row is put in, its champion has that row and every other
/// champion the row it had.
pub proof fn lemma_upserted_row(
    rows: Seq<ParticipantLiveStats>,
    row: ParticipantLiveStats,
    champion_id: i32,
)
    ensures
        champion_row(upserted(rows, row), champion_id) == if champion_id == row.champion_id {
            Some(row)
        } else {
            champion_row(rows, champion_id)
        },
{
    let after = upserted(rows, row);
    let at = champion_index(rows, row.champion_id);
    let old_at = champion_index(rows, champion_id);
    lemma_champion_index(rows, row.champion_id);
    lemma_champion_index(rows, champion_id);
    if champion_id == row.champion_id {
        assert forall|j: int| 0 <= j < at implies (#[trigger] after[j]).champion_id
            != champion_id by {
            assert(after[j] == rows[j]);
        }
        lemma_champion_index_is(after, champion_id, at);
    } else {
        assert forall|j: int| 0 <= j < old_at && j < after.len() implies (
        #[trigger] after[j]).champion_id != champion_id by {
            if j != at {
                assert(after[j] == rows[j]);
            }
        }
        if old_at < rows.len() {
            assert(old_at != at);
            assert(after[old_at] == rows[old_at]);
            lemma_champion_index_is(after, champion_id, old_at);
        } else {
            assert forall|j: int| 0 <= j < after.len() implies (#[trigger] after[j]).champion_id
                != champion_id by {
                if j < rows.len() && j != at {
                    assert(after[j] == rows[j]);
                }
            }
            lemma_champion_index_is(after, champion_id, after.len() as int);
        }
    }
}

/// A player has an entry exactly when some row is of that player: a player
/// with no rows has no entry, not an empty or zeroed one.
pub proof fn lemma_grouped_players(rows: Seq<ParticipantLiveStats>, summoner_id: i32)
    ensures
        grouped(rows).dom().contains(summoner_id) <==> exists|i: int|
            0 <= i < rows.len() && (#[trigger] rows[i]).summoner_id == summoner_id,
    decreases rows.len(),
{
    if rows.len() > 0 {
        let rest = rows.drop_last();
        lemma_grouped_players(rest, summoner_id);
        if grouped(rows).dom().contains(summoner_id) {
            if rows.last().summoner_id == summoner_id {
                assert(rows[rows.len() - 1].summoner_id == summoner_id);
            } else {
                let i = choose|i: int|
                    0 <= i < rest.len() && (#[trigger] rest[i]).summoner_id == summoner_id;
                assert(rows[i].summoner_id == summoner_id);
            }
        }
        if exists|i: int| 0 <= i < rows.len() && (#[trigger] rows[i]).summoner_id == summoner_id {
            let i = choose|i: int|
                0 <= i < rows.len() && (#[trigger] rows[i]).summoner_id == summoner_id;
            if i < rest.len() {
                assert(rest[i].summoner_id == summoner_id);
            }
        }
    }
}

/// What the table holds for a player and champion is the last row given for
/// them; rows of other players and champions have no part in it.
pub proof fn lemma_grouped_row(
    rows: Seq<ParticipantLiveStats>,
    summoner_id: i32,
    champion_id: i32,
)
    ensures
        champion_row(rows_of(grouped(rows), summoner_id), champion_id) == last_row(
            rows,
            summoner_id,
            champion_id,
        ),
        champion_stats_of(grouped(rows), summoner_id, champion_id) == match last_row(
            rows,
            summoner_id,
            champion_id,
        ) {
            Some(row) => Some(champion_stats_of_row(row)),
            None => None,
        },
    decreases rows.len(),
{
    if rows.len() > 0 {
        let rest = rows.drop_last();
        let row = rows.last();
        lemma_grouped_row(rest, summoner_id, champion_id);
        if row.summoner_id == summoner_id {
            lemma_upserted_row(rows_of(grouped(rest), summoner_id), row, champion_id);
        }
    }
}

/// A player without rows has neither champion history nor a ranked summary.
pub proof fn lemma_no_rows_no_stats(
    rows: Seq<ParticipantLiveStats>,
    summoner_id: i32,
    champion_id: i32,
)
    requires
        forall|i: int| 0 <= i < rows.len() ==> (#[trigger] rows[i]).summoner_id != summoner_id,
    ensures
        !grouped(rows).dom().contains(summoner_id),
        champion_stats_of(grouped(rows), summoner_id, champion_id) is None,
        ranked_stats_of(grouped(rows), summoner_id) is None,
{
    lemma_grouped_players(rows, summoner_id);
}

} // verus!
