//! The list of players that a viewer has met: how the query is put
//! together, how it is paged, and how its rows are joined with the players.

use vstd::prelude::*;
use vstd::string::StringExecFns;

verus! {

/// Players shown on one page.
pub const PER_PAGE: i64 = 40;

/// A value bound into the query.
#[derive(Clone, Copy, Debug, PartialEq, Eq, Structural)]
pub enum EncounterBind {
    Viewer,
    Champion,
    Search,
    Queue,
    StartDate,
    EndDate,
    Offset,
}

/// A fixed part of the query text.
#[derive(Clone, Copy, Debug, PartialEq, Eq, Structural)]
pub enum Fragment {
    Select,
    JoinSummoners,
    JoinViewer,
    AndChampion,
    JoinMatches,
    WhereOthers,
    AndSearch,
    AndQueue,
    AndStartDate,
    AndEndDate,
    GroupAndPage,
}

/// One piece of the query, in the order in which it is written: a fixed
/// text, or the place of a bound value.
#[derive(Clone, Copy, Debug, PartialEq, Eq, Structural)]
pub enum QueryPiece {
    Sql(Fragment),
    Bind(EncounterBind),
}

/// Which filters a query has.
#[derive(Clone, Copy, Debug, PartialEq, Eq, Structural)]
pub struct EncounterFilters {
    pub search: bool,
    pub champion: bool,
    pub queue: bool,
    pub start_date: bool,
    pub end_date: bool,
}

/// `pieces` where `present`, nothing where not.
pub open spec fn when(present: bool, pieces: Seq<QueryPiece>) -> Seq<QueryPiece> {
    if present {
        pieces
    } else {
        Seq::empty()
    }
}

/// Whether the query needs the table of matches: for a filter on queue or
/// dates, and for a search.
pub open spec fn needs_matches(filters: EncounterFilters) -> bool {
    filters.queue || filters.start_date || filters.end_date || filters.search
}

/// The pieces of the query for these filters.
pub open spec fn query_pieces(filters: EncounterFilters) -> Seq<QueryPiece> {
    seq![QueryPiece::Sql(Fragment::Select)] + when(
        filters.search,
        seq![QueryPiece::Sql(Fragment::JoinSummoners)],
    ) + seq![QueryPiece::Sql(Fragment::JoinViewer), QueryPiece::Bind(EncounterBind::Viewer)]
        + when(
        filters.champion,
        seq![QueryPiece::Sql(Fragment::AndChampion), QueryPiece::Bind(EncounterBind::Champion)],
    ) + when(needs_matches(filters), seq![QueryPiece::Sql(Fragment::JoinMatches)])
        + seq![QueryPiece::Sql(Fragment::WhereOthers), QueryPiece::Bind(EncounterBind::Viewer)]
        + when(
        filters.search,
        seq![QueryPiece::Sql(Fragment::AndSearch), QueryPiece::Bind(EncounterBind::Search)],
    ) + when(
        filters.queue,
        seq![QueryPiece::Sql(Fragment::AndQueue), QueryPiece::Bind(EncounterBind::Queue)],
    ) + when(
        filters.start_date,
        seq![QueryPiece::Sql(Fragment::AndStartDate), QueryPiece::Bind(EncounterBind::StartDate)],
    ) + when(
        filters.end_date,
        seq![QueryPiece::Sql(Fragment::AndEndDate), QueryPiece::Bind(EncounterBind::EndDate)],
    ) + seq![QueryPiece::Sql(Fragment::GroupAndPage), QueryPiece::Bind(EncounterBind::Offset)]
}

/// Appends a fixed text where `present`.
fn push_sql(res: &mut Vec<QueryPiece>, present: bool, sql: Fragment)
    ensures
        final(res)@ == old(res)@ + when(present, seq![QueryPiece::Sql(sql)]),
{
    if present {
        res.push(QueryPiece::Sql(sql));
    }
    assert(res@ =~= old(res)@ + when(present, seq![QueryPiece::Sql(sql)]));
}

/// Appends a fixed text and the place of its value where `present`.
fn push_filter(res: &mut Vec<QueryPiece>, present: bool, sql: Fragment, bind: EncounterBind)
    ensures
        final(res)@ == old(res)@ + when(present, seq![QueryPiece::Sql(sql), QueryPiece::Bind(bind)]),
{
    if present {
        res.push(QueryPiece::Sql(sql));
        res.push(QueryPiece::Bind(bind));
    }
    assert(res@ =~= old(res)@ + when(
        present,
        seq![QueryPiece::Sql(sql), QueryPiece::Bind(bind)],
    ));
}

/// Puts the query together: the fixed texts and the places of the bound
/// values, in the order in which they are written.
pub fn encounters_query(filters: EncounterFilters) -> (res: Vec<QueryPiece>)
    ensures
        res@ == query_pieces(filters),
{
    let mut res: Vec<QueryPiece> = Vec::new();
    res.push(QueryPiece::Sql(Fragment::Select));
    assert(res@ =~= seq![QueryPiece::Sql(Fragment::Select)]);
    push_sql(&mut res, filters.search, Fragment::JoinSummoners);
    push_filter(&mut res, true, Fragment::JoinViewer, EncounterBind::Viewer);
    push_filter(&mut res, filters.champion, Fragment::AndChampion, EncounterBind::Champion);
    push_sql(
        &mut res,
        filters.queue || filters.start_date || filters.end_date || filters.search,
        Fragment::JoinMatches,
    );
    push_filter(&mut res, true, Fragment::WhereOthers, EncounterBind::Viewer);
    push_filter(&mut res, filters.search, Fragment::AndSearch, EncounterBind::Search);
    push_filter(&mut res, filters.queue, Fragment::AndQueue, EncounterBind::Queue);
    push_filter(&mut res, filters.start_date, Fragment::AndStartDate, EncounterBind::StartDate);
    push_filter(&mut res, filters.end_date, Fragment::AndEndDate, EncounterBind::EndDate);
    push_filter(&mut res, true, Fragment::GroupAndPage, EncounterBind::Offset);
    res
}

/// Counts, per player met, the matches shared with the viewer: all of
/// them, those on the viewer's team and those against it, with the wins of
/// the viewer in each.
pub const SELECT_SQL: &'static str =
    "SELECT lmp.summoner_id, COUNT(*) AS match_count, COUNT(*) OVER () AS total_count, COUNT(*) FILTER (WHERE lmp.team_id = tm.team_id) AS with_match_count, SUM(CASE WHEN lmp.team_id = tm.team_id AND tm.won THEN 1 ELSE 0 END) AS with_win_count, COUNT(*) FILTER (WHERE lmp.team_id != tm.team_id) AS vs_match_count, SUM(CASE WHEN lmp.team_id != tm.team_id AND tm.won THEN 1 ELSE 0 END) AS vs_win_count FROM lol_match_participants lmp ";

/// Brings in the players, for a search by name.
pub const JOIN_SUMMONERS_SQL: &'static str = " LEFT JOIN summoners ss on lmp.summoner_id = ss.id ";

/// Brings in the viewer's own participation in each match.
pub const JOIN_VIEWER_SQL: &'static str =
    "JOIN lol_match_participants tm ON lmp.lol_match_id = tm.lol_match_id AND tm.summoner_id = ";

/// Keeps the matches that the viewer played on one champion.
pub const AND_CHAMPION_SQL: &'static str = " AND tm.champion_id = ";

/// Brings in the matches, for a filter on queue or dates.
pub const JOIN_MATCHES_SQL: &'static str = " JOIN lol_matches lm ON lm.id = lmp.lol_match_id ";

/// Leaves the viewer out of the players met.
pub const WHERE_OTHERS_SQL: &'static str = " WHERE lmp.summoner_id != ";

/// Keeps the players whose name holds the text searched.
pub const AND_SEARCH_SQL: &'static str = " and ss.game_name ilike ";

/// Keeps the matches of one queue.
pub const AND_QUEUE_SQL: &'static str = " AND lm.queue_id = ";

/// Keeps the matches that ended at or after a date.
pub const AND_START_DATE_SQL: &'static str = " AND lm.match_end >= ";

/// Keeps the matches that ended at or before a date.
pub const AND_END_DATE_SQL: &'static str = " AND lm.match_end <= ";

/// Groups by player, most matches first, one page from an offset.
pub const GROUP_AND_PAGE_SQL: &'static str =
    " GROUP BY lmp.summoner_id ORDER BY match_count DESC LIMIT 40 OFFSET ";

/// The text of a fixed part of the query.
pub open spec fn fragment_sql(fragment: Fragment) -> Seq<char> {
    match fragment {
        Fragment::Select => SELECT_SQL@,
        Fragment::JoinSummoners => JOIN_SUMMONERS_SQL@,
        Fragment::JoinViewer => JOIN_VIEWER_SQL@,
        Fragment::AndChampion => AND_CHAMPION_SQL@,
        Fragment::JoinMatches => JOIN_MATCHES_SQL@,
        Fragment::WhereOthers => WHERE_OTHERS_SQL@,
        Fragment::AndSearch => AND_SEARCH_SQL@,
        Fragment::AndQueue => AND_QUEUE_SQL@,
        Fragment::AndStartDate => AND_START_DATE_SQL@,
        Fragment::AndEndDate => AND_END_DATE_SQL@,
        Fragment::GroupAndPage => GROUP_AND_PAGE_SQL@,
    }
}

/// The text of a fixed part of the query.
pub fn fragment_text(fragment: Fragment) -> (res: &'static str)
    ensures
        res@ == fragment_sql(fragment),
{
    match fragment {
        Fragment::Select => SELECT_SQL,
        Fragment::JoinSummoners => JOIN_SUMMONERS_SQL,
        Fragment::JoinViewer => JOIN_VIEWER_SQL,
        Fragment::AndChampion => AND_CHAMPION_SQL,
        Fragment::JoinMatches => JOIN_MATCHES_SQL,
        Fragment::WhereOthers => WHERE_OTHERS_SQL,
        Fragment::AndSearch => AND_SEARCH_SQL,
        Fragment::AndQueue => AND_QUEUE_SQL,
        Fragment::AndStartDate => AND_START_DATE_SQL,
        Fragment::AndEndDate => AND_END_DATE_SQL,
        Fragment::GroupAndPage => GROUP_AND_PAGE_SQL,
    }
}

/// Number of players to skip for a page. Pages count from one; a page
/// below one reads as the first.
pub open spec fn offset_of(page: i32) -> int {
    if page > 1 {
        (page - 1) * PER_PAGE
    } else {
        0
    }
}

/// Number of players to skip for a page.
pub fn page_offset(page: i32) -> (res: i64)
    ensures
        res == offset_of(page),
{
    if page > 1 {
        (page as i64 - 1) * PER_PAGE
    } else {
        0
    }
}

/// Number of pages that `total_count` players fill, the last one maybe in
/// part. No players, or a count below zero, fill none.
pub open spec fn pages_of(total_count: i64) -> int {
    if total_count <= 0 {
        0
    } else {
        (total_count - 1) / PER_PAGE as int + 1
    }
}

/// Number of pages that `total_count` players fill.
pub fn page_count(total_count: i64) -> (res: i64)
    ensures
        res == pages_of(total_count),
{
    if total_count <= 0 {
        0
    } else {
        (total_count - 1) / PER_PAGE + 1
    }
}

/// The search to run: none for an empty text.
pub fn effective_search(search_summoner: Option<String>) -> (res: Option<String>)
    ensures
        res == match search_summoner {
            Some(text) => if text@.len() > 0 {
                Some(text)
            } else {
                None
            },
            None => None,
        },
{
    match search_summoner {
        Some(text) => {
            if text.as_str().is_empty() {
                None
            } else {
                Some(text)
            }
        },
        None => None,
    }
}

/// The pattern that finds a text anywhere in a name: the text between two
/// `%`.
pub fn search_pattern(search: &str) -> (res: String)
    ensures
        res@ == seq!['%'] + search@ + seq!['%'],
{
    proof {
        reveal_strlit("%");
    }
    let mut out = String::from_str("%");
    out.append(search);
    out.append("%");
    assert(out@ =~= seq!['%'] + search@ + seq!['%']);
    out
}

/// One row of the query: a player met, with the counts of shared matches.
#[derive(Clone, Copy, Debug, PartialEq, Eq)]
pub struct LolSummonerEncounterModel {
    pub summoner_id: i32,
    pub match_count: i64,
    pub total_count: i64,
    pub with_match_count: i64,
    pub with_win_count: i64,
    pub vs_match_count: i64,
    pub vs_win_count: i64,
}

/// What the directory holds of a player met.
#[derive(Clone, Debug, PartialEq, Eq)]
pub struct EncounterSummoner {
    pub id: i32,
    pub game_name: String,
    pub tag_line: String,
    pub platform: String,
    pub profile_icon_id: i32,
}

/// `EncounterSummoner` as a value.
pub struct EncounterSummonerView {
    pub id: i32,
    pub game_name: Seq<char>,
    pub tag_line: Seq<char>,
    pub platform: Seq<char>,
    pub profile_icon_id: i32,
}

impl View for EncounterSummoner {
    type V = EncounterSummonerView;

    open spec fn view(&self) -> EncounterSummonerView {
        EncounterSummonerView {
            id: self.id,
            game_name: self.game_name@,
            tag_line: self.tag_line@,
            platform: self.platform@,
            profile_icon_id: self.profile_icon_id,
        }
    }
}

/// A player met, as the list shows it.
#[derive(Clone, Debug, PartialEq, Eq)]
pub struct SummonerEncountersSummoner {
    pub id: i32,
    pub match_count: i64,
    pub with_match_count: i64,
    pub with_win_count: i64,
    pub vs_match_count: i64,
    pub vs_win_count: i64,
    pub game_name: String,
    pub tag_line: String,
    pub platform: String,
    pub profile_icon_id: u16,
}

/// `SummonerEncountersSummoner` as a value.
pub struct SummonerEncountersSummonerView {
    pub id: i32,
    pub match_count: i64,
    pub with_match_count: i64,
    pub with_win_count: i64,
    pub vs_match_count: i64,
    pub vs_win_count: i64,
    pub game_name: Seq<char>,
    pub tag_line: Seq<char>,
    pub platform: Seq<char>,
    pub profile_icon_id: u16,
}

impl View for SummonerEncountersSummoner {
    type V = SummonerEncountersSummonerView;

    open spec fn view(&self) -> SummonerEncountersSummonerView {
        SummonerEncountersSummonerView {
            id: self.id,
            match_count: self.match_count,
            with_match_count: self.with_match_count,
            with_win_count: self.with_win_count,
            vs_match_count: self.vs_match_count,
            vs_win_count: self.vs_win_count,
            game_name: self.game_name@,
            tag_line: self.tag_line@,
            platform: self.platform@,
            profile_icon_id: self.profile_icon_id,
        }
    }
}

/// One page of the players met.
#[derive(Clone, Debug, PartialEq, Eq)]
pub struct SummonerEncountersResult {
    pub total_pages: i64,
    pub encounters: Vec<SummonerEncountersSummoner>,
}

/// The values of a list of players.
pub open spec fn summoner_views(summoners: Seq<EncounterSummoner>) -> Seq<EncounterSummonerView> {
    summoners.map_values(|s: EncounterSummoner| s@)
}

/// The values of a list of players met.
pub open spec fn encounter_views(encounters: Seq<SummonerEncountersSummoner>) -> Seq<
    SummonerEncountersSummonerView,
> {
    encounters.map_values(|e: SummonerEncountersSummoner| e@)
}

/// The player with this id: the last one, where the list holds several.
pub open spec fn find_player(
    summoners: Seq<EncounterSummonerView>,
    id: i32,
) -> Option<EncounterSummonerView>
    decreases summoners.len(),
{
    if summoners.len() == 0 {
        None
    } else if summoners.last().id == id {
        Some(summoners.last())
    } else {
        find_player(summoners.drop_last(), id)
    }
}

/// Whether every row has its player.
pub open spec fn all_players_known(
    rows: Seq<LolSummonerEncounterModel>,
    summoners: Seq<EncounterSummonerView>,
) -> bool {
    forall|i: int| 0 <= i < rows.len() ==> find_player(summoners, (#[trigger] rows[i]).summoner_id) is Some
}

/// A row with its player. The icon keeps its low sixteen bits.
pub open spec fn encounter_of(
    row: LolSummonerEncounterModel,
    player: EncounterSummonerView,
) -> SummonerEncountersSummonerView {
    SummonerEncountersSummonerView {
        id: row.summoner_id,
        match_count: row.match_count,
        with_match_count: row.with_match_count,
        with_win_count: row.with_win_count,
        vs_match_count: row.vs_match_count,
        vs_win_count: row.vs_win_count,
        game_name: player.game_name,
        tag_line: player.tag_line,
        platform: player.platform,
        profile_icon_id: player.profile_icon_id as u16,
    }
}

/// The rows with their players, in the order of the rows.
pub open spec fn encounters_of(
    rows: Seq<LolSummonerEncounterModel>,
    summoners: Seq<EncounterSummonerView>,
) -> Seq<SummonerEncountersSummonerView> {
    Seq::new(rows.len(), |i: int| encounter_of(rows[i], find_player(summoners, rows[i].summoner_id)->0))
}

/// The number of pages that the rows report: that of the count in the
/// first row, none without rows.
pub open spec fn total_pages_of(rows: Seq<LolSummonerEncounterModel>) -> int {
    if rows.len() == 0 {
        0
    } else {
        pages_of(rows[0].total_count)
    }
}

/// The player with this id.
fn find_encounter_summoner(summoners: &Vec<EncounterSummoner>, id: i32) -> (res: Option<
    &EncounterSummoner,
>)
    ensures
        res is Some <==> find_player(summoner_views(summoners@), id) is Some,
        res matches Some(player) ==> find_player(summoner_views(summoners@), id) == Some(player@),
{
    let mut i: usize = summoners.len();
    assert(summoner_views(summoners@).take(i as int) =~= summoner_views(summoners@));
    while i > 0
        invariant
            i <= summoners@.len(),
            find_player(summoner_views(summoners@), id) == find_player(
                summoner_views(summoners@).take(i as int),
                id,
            ),
        decreases i,
    {
        proof {
            let now = summoner_views(summoners@).take(i as int);
            assert(now.drop_last() =~= summoner_views(summoners@).take(i - 1));
            assert(now.last() == summoners@[i - 1]@);
        }
        i -= 1;
        if summoners[i].id == id {
            return Some(&summoners[i]);
        }
    }
    None
}

/// Joins the rows of the query with the players they name, and says how
/// many pages there are. Without the player of some row there is no
/// result.
pub fn join_encounters(
    rows: &Vec<LolSummonerEncounterModel>,
    summoners: &Vec<EncounterSummoner>,
) -> (res: Option<SummonerEncountersResult>)
    ensures
        res is Some <==> all_players_known(rows@, summoner_views(summoners@)),
        res matches Some(page) ==> page.total_pages == total_pages_of(rows@) && encounter_views(
            page.encounters@,
        ) == encounters_of(rows@, summoner_views(summoners@)),
{
    let mut encounters: Vec<SummonerEncountersSummoner> = Vec::new();
    let mut i: usize = 0;
    while i < rows.len()
        invariant
            i <= rows@.len(),
            encounters@.len() == i,
            forall|j: int|
                0 <= j < i ==> find_player(
                    summoner_views(summoners@),
                    (#[trigger] rows@[j]).summoner_id,
                ) is Some,
            forall|j: int|
                0 <= j < i ==> (#[trigger] encounters@[j])@ == encounter_of(
                    rows@[j],
                    find_player(summoner_views(summoners@), rows@[j].summoner_id)->0,
                ),
        decreases rows@.len() - i,
    {
        let row = rows[i];
        match find_encounter_summoner(summoners, row.summoner_id) {
            None => {
                return None;
            },
            Some(player) => {
                encounters.push(
                    SummonerEncountersSummoner {
                        id: row.summoner_id,
                        match_count: row.match_count,
                        with_match_count: row.with_match_count,
                        with_win_count: row.with_win_count,
                        vs_match_count: row.vs_match_count,
                        vs_win_count: row.vs_win_count,
                        game_name: player.game_name.clone(),
                        tag_line: player.tag_line.clone(),
                        platform: player.platform.clone(),
                        profile_icon_id: #[verifier::truncate] (player.profile_icon_id as u16),
                    },
                );
            },
        }
        i += 1;
    }
    let total_pages: i64 = if rows.len() == 0 {
        0
    } else {
        page_count(rows[0].total_count)
    };
    assert(encounter_views(encounters@) =~= encounters_of(rows@, summoner_views(summoners@)));
    Some(SummonerEncountersResult { total_pages, encounters })
}

/// The query holds what its filters need, and nothing it does not: the
/// players are joined exactly for a search, the matches exactly where
/// something reads them, and each filter stands with the place of its
/// value.
pub proof fn lemma_query_joins_what_it_reads(filters: EncounterFilters)
    ensures
        query_pieces(filters).contains(QueryPiece::Sql(Fragment::JoinSummoners)) <==> filters.search,
        query_pieces(filters).contains(QueryPiece::Sql(Fragment::JoinMatches)) <==> needs_matches(
            filters,
        ),
        query_pieces(filters).contains(QueryPiece::Sql(Fragment::AndSearch)) <==> filters.search,
        query_pieces(filters).contains(QueryPiece::Sql(Fragment::AndQueue)) <==> filters.queue,
        query_pieces(filters).contains(QueryPiece::Sql(Fragment::AndStartDate))
            <==> filters.start_date,
        query_pieces(filters).contains(QueryPiece::Sql(Fragment::AndEndDate)) <==> filters.end_date,
        query_pieces(filters).contains(QueryPiece::Sql(Fragment::AndChampion)) <==> filters.champion,
{
    let q = query_pieces(filters);
    lemma_contains_parts(filters, QueryPiece::Sql(Fragment::JoinSummoners));
    lemma_contains_parts(filters, QueryPiece::Sql(Fragment::JoinMatches));
    lemma_contains_parts(filters, QueryPiece::Sql(Fragment::AndSearch));
    lemma_contains_parts(filters, QueryPiece::Sql(Fragment::AndQueue));
    lemma_contains_parts(filters, QueryPiece::Sql(Fragment::AndStartDate));
    lemma_contains_parts(filters, QueryPiece::Sql(Fragment::AndEndDate));
    lemma_contains_parts(filters, QueryPiece::Sql(Fragment::AndChampion));
}

/// A piece is in the query exactly when it is in one of its parts.
proof fn lemma_contains_parts(filters: EncounterFilters, piece: QueryPiece)
    ensures
        query_pieces(filters).contains(piece) <==> {
            ||| piece == QueryPiece::Sql(Fragment::Select)
            ||| filters.search && piece == QueryPiece::Sql(Fragment::JoinSummoners)
            ||| piece == QueryPiece::Sql(Fragment::JoinViewer)
            ||| piece == QueryPiece::Bind(EncounterBind::Viewer)
            ||| filters.champion && (piece == QueryPiece::Sql(Fragment::AndChampion) || piece
                == QueryPiece::Bind(EncounterBind::Champion))
            ||| needs_matches(filters) && piece == QueryPiece::Sql(Fragment::JoinMatches)
            ||| piece == QueryPiece::Sql(Fragment::WhereOthers)
            ||| filters.search && (piece == QueryPiece::Sql(Fragment::AndSearch) || piece
                == QueryPiece::Bind(EncounterBind::Search))
            ||| filters.queue && (piece == QueryPiece::Sql(Fragment::AndQueue) || piece
                == QueryPiece::Bind(EncounterBind::Queue))
            ||| filters.start_date && (piece == QueryPiece::Sql(Fragment::AndStartDate) || piece
                == QueryPiece::Bind(EncounterBind::StartDate))
            ||| filters.end_date && (piece == QueryPiece::Sql(Fragment::AndEndDate) || piece
                == QueryPiece::Bind(EncounterBind::EndDate))
            ||| piece == QueryPiece::Sql(Fragment::GroupAndPage)
            ||| piece == QueryPiece::Bind(EncounterBind::Offset)
        },
{
    let select = seq![QueryPiece::Sql(Fragment::Select)];
    let players = when(filters.search, seq![QueryPiece::Sql(Fragment::JoinSummoners)]);
    let viewer = seq![QueryPiece::Sql(Fragment::JoinViewer), QueryPiece::Bind(EncounterBind::Viewer)];
    let champion = when(
        filters.champion,
        seq![QueryPiece::Sql(Fragment::AndChampion), QueryPiece::Bind(EncounterBind::Champion)],
    );
    let matches = when(needs_matches(filters), seq![QueryPiece::Sql(Fragment::JoinMatches)]);
    let others = seq![QueryPiece::Sql(Fragment::WhereOthers), QueryPiece::Bind(EncounterBind::Viewer)];
    let search = when(
        filters.search,
        seq![QueryPiece::Sql(Fragment::AndSearch), QueryPiece::Bind(EncounterBind::Search)],
    );
    let queue = when(
        filters.queue,
        seq![QueryPiece::Sql(Fragment::AndQueue), QueryPiece::Bind(EncounterBind::Queue)],
    );
    let start = when(
        filters.start_date,
        seq![QueryPiece::Sql(Fragment::AndStartDate), QueryPiece::Bind(EncounterBind::StartDate)],
    );
    let end = when(
        filters.end_date,
        seq![QueryPiece::Sql(Fragment::AndEndDate), QueryPiece::Bind(EncounterBind::EndDate)],
    );
    let paging = seq![QueryPiece::Sql(Fragment::GroupAndPage), QueryPiece::Bind(EncounterBind::Offset)];
    lemma_contains_add(select, players, piece);
    lemma_contains_add(select + players, viewer, piece);
    lemma_contains_add(select + players + viewer, champion, piece);
    lemma_contains_add(select + players + viewer + champion, matches, piece);
    lemma_contains_add(select + players + viewer + champion + matches, others, piece);
    lemma_contains_add(select + players + viewer + champion + matches + others, search, piece);
    lemma_contains_add(select + players + viewer + champion + matches + others + search, queue, piece);
    lemma_contains_add(select + players + viewer + champion + matches + others + search + queue, start, piece);
    lemma_contains_add(select + players + viewer + champion + matches + others + search + queue + start, end, piece);
    lemma_contains_add(select + players + viewer + champion + matches + others + search + queue + start + end, paging, piece);
    lemma_contains_one(QueryPiece::Sql(Fragment::Select), piece);
    lemma_contains_one(QueryPiece::Sql(Fragment::JoinSummoners), piece);
    lemma_contains_one(QueryPiece::Sql(Fragment::JoinMatches), piece);
    lemma_contains_two(
        QueryPiece::Sql(Fragment::JoinViewer),
        QueryPiece::Bind(EncounterBind::Viewer),
        piece,
    );
    lemma_contains_two(
        QueryPiece::Sql(Fragment::AndChampion),
        QueryPiece::Bind(EncounterBind::Champion),
        piece,
    );
    lemma_contains_two(
        QueryPiece::Sql(Fragment::WhereOthers),
        QueryPiece::Bind(EncounterBind::Viewer),
        piece,
    );
    lemma_contains_two(
        QueryPiece::Sql(Fragment::AndSearch),
        QueryPiece::Bind(EncounterBind::Search),
        piece,
    );
    lemma_contains_two(
        QueryPiece::Sql(Fragment::AndQueue),
        QueryPiece::Bind(EncounterBind::Queue),
        piece,
    );
    lemma_contains_two(
        QueryPiece::Sql(Fragment::AndStartDate),
        QueryPiece::Bind(EncounterBind::StartDate),
        piece,
    );
    lemma_contains_two(
        QueryPiece::Sql(Fragment::AndEndDate),
        QueryPiece::Bind(EncounterBind::EndDate),
        piece,
    );
    lemma_contains_two(
        QueryPiece::Sql(Fragment::GroupAndPage),
        QueryPiece::Bind(EncounterBind::Offset),
        piece,
    );
    assert(!Seq::<QueryPiece>::empty().contains(piece));
}

/// A piece is in a joined list exactly when it is in one of the two.
proof fn lemma_contains_add(a: Seq<QueryPiece>, b: Seq<QueryPiece>, piece: QueryPiece)
    ensures
        (a + b).contains(piece) <==> a.contains(piece) || b.contains(piece),
{
    if a.contains(piece) {
        let i = choose|i: int| 0 <= i < a.len() && a[i] == piece;
        assert((a + b)[i] == piece);
    }
    if b.contains(piece) {
        let i = choose|i: int| 0 <= i < b.len() && b[i] == piece;
        assert((a + b)[a.len() + i] == piece);
    }
    if (a + b).contains(piece) {
        let i = choose|i: int| 0 <= i < (a + b).len() && (a + b)[i] == piece;
        if i < a.len() {
            assert(a[i] == piece);
        } else {
            assert(b[i - a.len()] == piece);
        }
    }
}

/// What a list of one piece holds.
proof fn lemma_contains_one(x: QueryPiece, piece: QueryPiece)
    ensures
        seq![x].contains(piece) <==> piece == x,
{
    if piece == x {
        assert(seq![x][0] == piece);
    }
}

/// What a list of two pieces holds.
proof fn lemma_contains_two(x: QueryPiece, y: QueryPiece, piece: QueryPiece)
    ensures
        seq![x, y].contains(piece) <==> piece == x || piece == y,
{
    if piece == x {
        assert(seq![x, y][0] == piece);
    }
    if piece == y {
        assert(seq![x, y][1] == piece);
    }
}

} // verus!
