//! The live-game request, step by step. The caller talks to the match
//! source and to the stores; this module decides, after every answer, what
//! is asked next and what is returned in the end.

use crate::assembly::{
    account_views, find_record, lemma_discovery_skips_known, add_encounters, annotated, get_live_game_data, fixed_bytes, identities,
    live_game_of, new_summoner_views, new_summoners, new_summoners_of, participant_ids,
    participant_puuids, puuids_not_found, record_views, summoner_ids, texts, unresolved,
};
use crate::cache::{expiry, key_bytes, lookup, stored, CacheModel, LiveGameCache};
use crate::fixed_string::Puuid;
use crate::live_game::{
    Account, AccountView, CurrentGameInfo, CurrentGameInfoView, LiveGame, LiveGameParticipantView,
    LiveGameView, ParticipantLiveStats, SummonerLiveModel, SummonerLiveModelView, TempSummoner,
    TempSummonerView,
};
use crate::stats::{get_summoners_live_stats, grouped};
use std::collections::HashMap;
use vstd::prelude::*;

verus! {

/// Why a request fails.
#[derive(Clone, Copy, Debug, PartialEq, Eq, Structural)]
pub enum LiveGameError {
    /// The viewer is not a known player.
    PlayerNotFound,
    /// A store did not answer.
    Store,
    /// The caller reported something that was not asked for.
    UnexpectedEvent,
}

/// What the caller does next.
#[derive(Debug, PartialEq, Eq)]
pub enum Action {
    /// Find the identity of the viewer in the directory.
    FindViewer { summoner_id: i32 },
    /// Ask the match source for the match that this identity is in.
    FetchCurrentGame { puuid: String },
    /// Find these identities in the directory, in one query.
    FindPlayers { puuids: Vec<String> },
    /// Look up the account of each of these identities. A lookup that
    /// fails is dropped.
    LookUpAccounts { puuids: Vec<String> },
    /// Write these players to the directory, in one call.
    InsertPlayers { players: Vec<TempSummoner> },
    /// Query the history of these players.
    QueryStats { summoner_ids: Vec<i32> },
    /// Count the earlier matches of the viewer with each of these players,
    /// in one query.
    CountEncounters { summoner_id: i32, candidates: Vec<i32> },
    /// Return this; the request is over.
    Done { result: Result<Option<LiveGame>, LiveGameError> },
}

/// What the caller reports.
#[derive(Clone, Debug, PartialEq, Eq)]
pub enum Event {
    /// The request begins.
    Start,
    /// The identity of the viewer, if the directory knows the viewer.
    ViewerFound { puuid: Option<String> },
    /// The match that the viewer is in, if it is in one.
    GameFetched { game: Option<CurrentGameInfo> },
    /// The match source failed.
    FetchFailed,
    /// The records that the directory holds for the identities asked.
    PlayersFound { players: Vec<SummonerLiveModel> },
    /// The accounts of the lookups that succeeded.
    AccountsFound { accounts: Vec<Account> },
    /// The players were written.
    PlayersInserted,
    /// The rows of the history query.
    StatsFound { rows: Vec<ParticipantLiveStats> },
    /// The number of earlier matches with each player that has any.
    EncountersCounted { encounters: HashMap<i32, u16> },
    /// A store failed.
    StoreFailed,
}

/// Where a request stands.
#[allow(inconsistent_fields)]
#[derive(Clone, Debug, PartialEq, Eq)]
pub enum Phase {
    Start,
    AwaitViewer,
    AwaitGame { puuid: String },
    AwaitKnown { game: CurrentGameInfo },
    AwaitAccounts { game: CurrentGameInfo, known: Vec<SummonerLiveModel>, missing: Vec<String> },
    AwaitInsert { game: CurrentGameInfo, known: Vec<SummonerLiveModel>, missing: Vec<String> },
    AwaitDiscovered { game: CurrentGameInfo, known: Vec<SummonerLiveModel> },
    AwaitStats { game: CurrentGameInfo, records: Vec<SummonerLiveModel> },
    AwaitEncounters { game: LiveGame },
    Finished,
}

/// One live-game request: the viewer, its platform, and where the request
/// stands.
#[derive(Clone, Debug, PartialEq, Eq)]
pub struct LiveGameRequest {
    pub summoner_id: i32,
    pub platform: String,
    pub phase: Phase,
}

/// `Action` as a value.
pub enum ActionView {
    FindViewer { summoner_id: i32 },
    FetchCurrentGame { puuid: Seq<char> },
    FindPlayers { puuids: Seq<Seq<char>> },
    LookUpAccounts { puuids: Seq<Seq<char>> },
    InsertPlayers { players: Seq<TempSummonerView> },
    QueryStats { summoner_ids: Seq<i32> },
    CountEncounters { summoner_id: i32, candidates: Seq<i32> },
    Done { result: Result<Option<LiveGameView>, LiveGameError> },
}

impl View for Action {
    type V = ActionView;

    open spec fn view(&self) -> ActionView {
        match *self {
            Action::FindViewer { summoner_id } => ActionView::FindViewer { summoner_id },
            Action::FetchCurrentGame { puuid } => ActionView::FetchCurrentGame { puuid: puuid@ },
            Action::FindPlayers { puuids } => ActionView::FindPlayers { puuids: texts(puuids@) },
            Action::LookUpAccounts { puuids } => ActionView::LookUpAccounts {
                puuids: texts(puuids@),
            },
            Action::InsertPlayers { players } => ActionView::InsertPlayers {
                players: new_summoner_views(players@),
            },
            Action::QueryStats { summoner_ids } => ActionView::QueryStats {
                summoner_ids: summoner_ids@,
            },
            Action::CountEncounters { summoner_id, candidates } => ActionView::CountEncounters {
                summoner_id,
                candidates: candidates@,
            },
            Action::Done { result } => ActionView::Done {
                result: match result {
                    Ok(Some(game)) => Ok(Some(game@)),
                    Ok(None) => Ok(None),
                    Err(e) => Err(e),
                },
            },
        }
    }
}

/// `Event` as a value.
pub enum EventView {
    Start,
    ViewerFound { puuid: Option<Seq<char>> },
    GameFetched { game: Option<CurrentGameInfoView> },
    FetchFailed,
    PlayersFound { players: Seq<SummonerLiveModelView> },
    AccountsFound { accounts: Seq<AccountView> },
    PlayersInserted,
    StatsFound { rows: Seq<ParticipantLiveStats> },
    EncountersCounted { encounters: Map<i32, u16> },
    StoreFailed,
}

impl View for Event {
    type V = EventView;

    open spec fn view(&self) -> EventView {
        match *self {
            Event::Start => EventView::Start,
            Event::ViewerFound { puuid } => EventView::ViewerFound {
                puuid: match puuid {
                    Some(puuid) => Some(puuid@),
                    None => None,
                },
            },
            Event::GameFetched { game } => EventView::GameFetched {
                game: match game {
                    Some(game) => Some(game@),
                    None => None,
                },
            },
            Event::FetchFailed => EventView::FetchFailed,
            Event::PlayersFound { players } => EventView::PlayersFound {
                players: record_views(players@),
            },
            Event::AccountsFound { accounts } => EventView::AccountsFound {
                accounts: account_views(accounts@),
            },
            Event::PlayersInserted => EventView::PlayersInserted,
            Event::StatsFound { rows } => EventView::StatsFound { rows: rows@ },
            Event::EncountersCounted { encounters } => EventView::EncountersCounted {
                encounters: encounters@,
            },
            Event::StoreFailed => EventView::StoreFailed,
        }
    }
}

/// `Phase` as a value.
#[allow(inconsistent_fields)]
pub enum PhaseView {
    Start,
    AwaitViewer,
    AwaitGame { puuid: Seq<char> },
    AwaitKnown { game: CurrentGameInfoView },
    AwaitAccounts {
        game: CurrentGameInfoView,
        known: Seq<SummonerLiveModelView>,
        missing: Seq<Seq<char>>,
    },
    AwaitInsert {
        game: CurrentGameInfoView,
        known: Seq<SummonerLiveModelView>,
        missing: Seq<Seq<char>>,
    },
    AwaitDiscovered { game: CurrentGameInfoView, known: Seq<SummonerLiveModelView> },
    AwaitStats { game: CurrentGameInfoView, records: Seq<SummonerLiveModelView> },
    AwaitEncounters { game: LiveGameView },
    Finished,
}

impl View for Phase {
    type V = PhaseView;

    open spec fn view(&self) -> PhaseView {
        match *self {
            Phase::Start => PhaseView::Start,
            Phase::AwaitViewer => PhaseView::AwaitViewer,
            Phase::AwaitGame { puuid } => PhaseView::AwaitGame { puuid: puuid@ },
            Phase::AwaitKnown { game } => PhaseView::AwaitKnown { game: game@ },
            Phase::AwaitAccounts { game, known, missing } => PhaseView::AwaitAccounts {
                game: game@,
                known: record_views(known@),
                missing: texts(missing@),
            },
            Phase::AwaitInsert { game, known, missing } => PhaseView::AwaitInsert {
                game: game@,
                known: record_views(known@),
                missing: texts(missing@),
            },
            Phase::AwaitDiscovered { game, known } => PhaseView::AwaitDiscovered {
                game: game@,
                known: record_views(known@),
            },
            Phase::AwaitStats { game, records } => PhaseView::AwaitStats {
                game: game@,
                records: record_views(records@),
            },
            Phase::AwaitEncounters { game } => PhaseView::AwaitEncounters { game: game@ },
            Phase::Finished => PhaseView::Finished,
        }
    }
}

/// `LiveGameRequest` as a value.
pub struct LiveGameRequestView {
    pub summoner_id: i32,
    pub platform: Seq<char>,
    pub phase: PhaseView,
}

impl View for LiveGameRequest {
    type V = LiveGameRequestView;

    open spec fn view(&self) -> LiveGameRequestView {
        LiveGameRequestView {
            summoner_id: self.summoner_id,
            platform: self.platform@,
            phase: self.phase@,
        }
    }
}

/// What one step comes to: the phase reached, what the caller does next,
/// and what the cache then holds.
pub struct Outcome {
    pub phase: PhaseView,
    pub action: ActionView,
    pub cache: CacheModel,
}

/// The local ids of a list of directory records, in their order.
pub open spec fn record_ids(records: Seq<SummonerLiveModelView>) -> Seq<i32> {
    records.map_values(|r: SummonerLiveModelView| r.id)
}

/// The identities under which a snapshot is stored: those of its
/// participants.
pub open spec fn snapshot_keys(game: LiveGameView) -> Seq<Seq<u8>> {
    game.participants.map_values(|p: LiveGameParticipantView| p.puuid)
}

/// The end of a request.
pub open spec fn finished(
    result: Result<Option<LiveGameView>, LiveGameError>,
    cache: CacheModel,
) -> Outcome {
    Outcome { phase: PhaseView::Finished, action: ActionView::Done { result }, cache }
}

/// The step from a snapshot to its annotation: the encounters of the viewer
/// with the participants are counted for every request, whether the
/// snapshot came from the cache or was just assembled.
pub open spec fn count_encounters(summoner_id: i32, game: LiveGameView, cache: CacheModel) -> Outcome {
    Outcome {
        phase: PhaseView::AwaitEncounters { game },
        action: ActionView::CountEncounters { summoner_id, candidates: participant_ids(game) },
        cache,
    }
}

/// The step to the history query, once every participant that can be
/// resolved is.
pub open spec fn query_stats(
    game: CurrentGameInfoView,
    records: Seq<SummonerLiveModelView>,
    cache: CacheModel,
) -> Outcome {
    Outcome {
        phase: PhaseView::AwaitStats { game, records },
        action: ActionView::QueryStats { summoner_ids: record_ids(records) },
        cache,
    }
}

/// One step of a request: from the phase it is in and what the caller
/// reports, to the next phase and the next thing to do. `now` is the time
/// of the cache, `timestamp` the time written into new directory records.
pub open spec fn next(
    request: LiveGameRequestView,
    event: EventView,
    cache: CacheModel,
    ttl: u64,
    now: u64,
    timestamp: i64,
) -> Outcome {
    match (request.phase, event) {
        (PhaseView::Start, EventView::Start) => Outcome {
            phase: PhaseView::AwaitViewer,
            action: ActionView::FindViewer { summoner_id: request.summoner_id },
            cache,
        },
        (PhaseView::AwaitViewer, EventView::ViewerFound { puuid: None }) => finished(
            Err(LiveGameError::PlayerNotFound),
            cache,
        ),
        (PhaseView::AwaitViewer, EventView::ViewerFound { puuid: Some(puuid) }) => match lookup(
            cache,
            fixed_bytes(puuid, 78),
            now,
        ) {
            Some(game) => count_encounters(request.summoner_id, game, cache),
            None => Outcome {
                phase: PhaseView::AwaitGame { puuid },
                action: ActionView::FetchCurrentGame { puuid },
                cache,
            },
        },
        (PhaseView::AwaitGame { .. }, EventView::FetchFailed) => finished(Ok(None), cache),
        (PhaseView::AwaitGame { .. }, EventView::GameFetched { game: None }) => finished(
            Ok(None),
            cache,
        ),
        (PhaseView::AwaitGame { .. }, EventView::GameFetched { game: Some(game) }) => Outcome {
            phase: PhaseView::AwaitKnown { game },
            action: ActionView::FindPlayers { puuids: identities(game.participants) },
            cache,
        },
        (PhaseView::AwaitKnown { game }, EventView::PlayersFound { players }) => {
            let missing = unresolved(identities(game.participants), players);
            if missing.len() == 0 {
                query_stats(game, players, cache)
            } else {
                Outcome {
                    phase: PhaseView::AwaitAccounts { game, known: players, missing },
                    action: ActionView::LookUpAccounts { puuids: missing },
                    cache,
                }
            }
        },
        (
            PhaseView::AwaitAccounts { game, known, missing },
            EventView::AccountsFound { accounts },
        ) => {
            let players = new_summoners_of(
                accounts,
                missing,
                game.participants,
                request.platform,
                timestamp,
            );
            if players.len() == 0 {
                Outcome {
                    phase: PhaseView::AwaitDiscovered { game, known },
                    action: ActionView::FindPlayers { puuids: missing },
                    cache,
                }
            } else {
                Outcome {
                    phase: PhaseView::AwaitInsert { game, known, missing },
                    action: ActionView::InsertPlayers { players },
                    cache,
                }
            }
        },
        (PhaseView::AwaitInsert { game, known, missing }, EventView::PlayersInserted) => Outcome {
            phase: PhaseView::AwaitDiscovered { game, known },
            action: ActionView::FindPlayers { puuids: missing },
            cache,
        },
        (PhaseView::AwaitDiscovered { game, known }, EventView::PlayersFound { players }) => {
            query_stats(game, known + players, cache)
        },
        (PhaseView::AwaitStats { game, records }, EventView::StatsFound { rows }) => {
            let snapshot = live_game_of(game, records, grouped(rows));
            count_encounters(
                request.summoner_id,
                snapshot,
                stored(cache, snapshot_keys(snapshot), snapshot, expiry(now, ttl)),
            )
        },
        (PhaseView::AwaitEncounters { game }, EventView::EncountersCounted { encounters }) => {
            finished(Ok(Some(annotated(game, encounters))), cache)
        },
        (PhaseView::AwaitViewer, EventView::StoreFailed) => finished(
            Err(LiveGameError::Store),
            cache,
        ),
        (PhaseView::AwaitKnown { .. }, EventView::StoreFailed) => finished(
            Err(LiveGameError::Store),
            cache,
        ),
        (PhaseView::AwaitInsert { .. }, EventView::StoreFailed) => finished(
            Err(LiveGameError::Store),
            cache,
        ),
        (PhaseView::AwaitDiscovered { .. }, EventView::StoreFailed) => finished(
            Err(LiveGameError::Store),
            cache,
        ),
        (PhaseView::AwaitStats { .. }, EventView::StoreFailed) => finished(
            Err(LiveGameError::Store),
            cache,
        ),
        (PhaseView::AwaitEncounters { .. }, EventView::StoreFailed) => finished(
            Err(LiveGameError::Store),
            cache,
        ),
        _ => finished(Err(LiveGameError::UnexpectedEvent), cache),
    }
}

/// A copy of a list of texts.
fn clone_texts(list: &Vec<String>) -> (res: Vec<String>)
    ensures
        texts(res@) == texts(list@),
{
    let mut res: Vec<String> = Vec::new();
    let mut i: usize = 0;
    while i < list.len()
        invariant
            i <= list@.len(),
            res@.len() == i,
            forall|j: int| 0 <= j < i ==> (#[trigger] res@[j])@ == list@[j]@,
        decreases list@.len() - i,
    {
        res.push(list[i].clone());
        i += 1;
    }
    assert(texts(res@) =~= texts(list@));
    res
}

/// The local ids of a list of directory records.
fn ids_of_records(records: &Vec<SummonerLiveModel>) -> (res: Vec<i32>)
    ensures
        res@ == record_ids(record_views(records@)),
{
    let mut res: Vec<i32> = Vec::new();
    let mut i: usize = 0;
    while i < records.len()
        invariant
            i <= records@.len(),
            res@ == record_ids(record_views(records@)).take(i as int),
        decreases records@.len() - i,
    {
        res.push(records[i].id);
        assert(res@ =~= record_ids(record_views(records@)).take(i + 1));
        i += 1;
    }
    assert(record_ids(record_views(records@)).take(records@.len() as int) =~= record_ids(
        record_views(records@),
    ));
    res
}

/// The identities of the participants of a snapshot.
fn keys_of(game: &LiveGame) -> (res: Vec<Puuid>)
    ensures
        key_bytes(res@) == snapshot_keys(game@),
{
    let mut res: Vec<Puuid> = Vec::new();
    let mut i: usize = 0;
    while i < game.participants.len()
        invariant
            i <= game.participants@.len(),
            res@.len() == i,
            forall|j: int| 0 <= j < i ==> (#[trigger] res@[j]).bytes() == game.participants@[j]@.puuid,
        decreases game.participants@.len() - i,
    {
        res.push(game.participants[i].puuid);
        i += 1;
    }
    assert(key_bytes(res@) =~= snapshot_keys(game@));
    res
}

/// The end of a request.
fn finish(result: Result<Option<LiveGame>, LiveGameError>) -> (res: (Phase, Action))
    ensures
        res.0@ == PhaseView::Finished,
        res.1@ == (ActionView::Done {
            result: match result {
                Ok(Some(game)) => Ok(Some(game@)),
                Ok(None) => Ok(None),
                Err(e) => Err(e),
            },
        }),
{
    (Phase::Finished, Action::Done { result })
}

/// The step from a snapshot to the count of encounters.
fn ask_encounters(summoner_id: i32, game: LiveGame) -> (res: (Phase, Action))
    ensures
        res.0@ == (PhaseView::AwaitEncounters { game: game@ }),
        res.1@ == (ActionView::CountEncounters { summoner_id, candidates: participant_ids(game@) }),
{
    let candidates = summoner_ids(&game);
    (Phase::AwaitEncounters { game }, Action::CountEncounters { summoner_id, candidates })
}

/// The step to the history query.
fn ask_stats(game: CurrentGameInfo, records: Vec<SummonerLiveModel>) -> (res: (Phase, Action))
    ensures
        res.0@ == (PhaseView::AwaitStats { game: game@, records: record_views(records@) }),
        res.1@ == (ActionView::QueryStats { summoner_ids: record_ids(record_views(records@)) }),
{
    let summoner_ids = ids_of_records(&records);
    (Phase::AwaitStats { game, records }, Action::QueryStats { summoner_ids })
}

impl LiveGameRequest {
    /// A request of this viewer that has not begun.
    pub fn new(summoner_id: i32, platform: String) -> (res: Self)
        ensures
            res@ == (LiveGameRequestView {
                summoner_id,
                platform: platform@,
                phase: PhaseView::Start,
            }),
    {
        LiveGameRequest { summoner_id, platform, phase: Phase::Start }
    }

    /// Takes one step: given what the caller reports, moves to the next
    /// phase and says what the caller does next. The cache is read when the
    /// viewer is known and written when a snapshot has been assembled, and
    /// at no other step.
    pub fn step(self, event: Event, cache: &mut LiveGameCache, now: u64, timestamp: i64) -> (res: (
        LiveGameRequest,
        Action,
    ))
        ensures
            final(cache).time_to_live() == old(cache).time_to_live(),
            res.0@.summoner_id == self@.summoner_id,
            res.0@.platform == self@.platform,
            res.0@.phase == next(
                self@,
                event@,
                old(cache)@,
                old(cache).time_to_live(),
                now,
                timestamp,
            ).phase,
            res.1@ == next(
                self@,
                event@,
                old(cache)@,
                old(cache).time_to_live(),
                now,
                timestamp,
            ).action,
            final(cache)@ == next(
                self@,
                event@,
                old(cache)@,
                old(cache).time_to_live(),
                now,
                timestamp,
            ).cache,
    {
        let LiveGameRequest { summoner_id, platform, phase } = self;
        let (phase, action) = match phase {
            Phase::Start => match event {
                Event::Start => (Phase::AwaitViewer, Action::FindViewer { summoner_id }),
                _ => finish(Err(LiveGameError::UnexpectedEvent)),
            },
            Phase::AwaitViewer => match event {
                Event::ViewerFound { puuid: None } => finish(Err(LiveGameError::PlayerNotFound)),
                Event::ViewerFound { puuid: Some(puuid) } => {
                    let key = Puuid::new(puuid.as_str());
                    match cache.get_game_data(&key, now) {
                        Some(shared) => ask_encounters(summoner_id, shared.duplicate()),
                        None => (
                            Phase::AwaitGame { puuid: puuid.clone() },
                            Action::FetchCurrentGame { puuid },
                        ),
                    }
                },
                Event::StoreFailed => finish(Err(LiveGameError::Store)),
                _ => finish(Err(LiveGameError::UnexpectedEvent)),
            },
            Phase::AwaitGame { puuid } => match event {
                Event::FetchFailed => finish(Ok(None)),
                Event::GameFetched { game: None } => finish(Ok(None)),
                Event::GameFetched { game: Some(game) } => {
                    let puuids = participant_puuids(&game);
                    (Phase::AwaitKnown { game }, Action::FindPlayers { puuids })
                },
                _ => finish(Err(LiveGameError::UnexpectedEvent)),
            },
            Phase::AwaitKnown { game } => match event {
                Event::PlayersFound { players } => {
                    let puuids = participant_puuids(&game);
                    let missing = puuids_not_found(&puuids, &players);
                    if missing.len() == 0 {
                        ask_stats(game, players)
                    } else {
                        let puuids = clone_texts(&missing);
                        (
                            Phase::AwaitAccounts { game, known: players, missing },
                            Action::LookUpAccounts { puuids },
                        )
                    }
                },
                Event::StoreFailed => finish(Err(LiveGameError::Store)),
                _ => finish(Err(LiveGameError::UnexpectedEvent)),
            },
            Phase::AwaitAccounts { game, known, missing } => match event {
                Event::AccountsFound { accounts } => {
                    let players = new_summoners(
                        &accounts,
                        &missing,
                        &game,
                        platform.as_str(),
                        timestamp,
                    );
                    if players.len() == 0 {
                        (
                            Phase::AwaitDiscovered { game, known },
                            Action::FindPlayers { puuids: missing },
                        )
                    } else {
                        (
                            Phase::AwaitInsert { game, known, missing },
                            Action::InsertPlayers { players },
                        )
                    }
                },
                _ => finish(Err(LiveGameError::UnexpectedEvent)),
            },
            Phase::AwaitInsert { game, known, missing } => match event {
                Event::PlayersInserted => (
                    Phase::AwaitDiscovered { game, known },
                    Action::FindPlayers { puuids: missing },
                ),
                Event::StoreFailed => finish(Err(LiveGameError::Store)),
                _ => finish(Err(LiveGameError::UnexpectedEvent)),
            },
            Phase::AwaitDiscovered { game, known } => match event {
                Event::PlayersFound { players } => {
                    let mut records = known;
                    let mut found = players;
                    records.append(&mut found);
                    assert(record_views(records@) =~= record_views(known@) + record_views(
                        players@,
                    ));
                    ask_stats(game, records)
                },
                Event::StoreFailed => finish(Err(LiveGameError::Store)),
                _ => finish(Err(LiveGameError::UnexpectedEvent)),
            },
            Phase::AwaitStats { game, records } => match event {
                Event::StatsFound { rows } => {
                    let table = get_summoners_live_stats(&rows);
                    let snapshot = get_live_game_data(&game, &records, &table);
                    let keys = keys_of(&snapshot);
                    cache.set_game_data(snapshot.game_id, keys, snapshot.duplicate(), now);
                    ask_encounters(summoner_id, snapshot)
                },
                Event::StoreFailed => finish(Err(LiveGameError::Store)),
                _ => finish(Err(LiveGameError::UnexpectedEvent)),
            },
            Phase::AwaitEncounters { game } => match event {
                Event::EncountersCounted { encounters } => {
                    finish(Ok(Some(add_encounters(game, &encounters))))
                },
                Event::StoreFailed => finish(Err(LiveGameError::Store)),
                _ => finish(Err(LiveGameError::UnexpectedEvent)),
            },
            Phase::Finished => finish(Err(LiveGameError::UnexpectedEvent)),
        };
        (LiveGameRequest { summoner_id, platform, phase }, action)
    }
}

/// The cache is written at one step only: when the history has arrived and
/// the snapshot is assembled. Every other step leaves it as it is; in
/// particular the annotation of a viewer is never stored.
pub proof fn lemma_cache_changes_only_with_snapshot(
    request: LiveGameRequestView,
    event: EventView,
    cache: CacheModel,
    ttl: u64,
    now: u64,
    timestamp: i64,
)
    requires
        !(request.phase is AwaitStats && event is StatsFound),
    ensures
        next(request, event, cache, ttl, now, timestamp).cache == cache,
{
}

/// On a cache hit the encounters are still counted, for this viewer: the
/// step asks for the count with the participants of the stored snapshot,
/// and the answer is returned on that snapshot, which stays in the cache
/// unchanged. Two viewers of one match get the same snapshot, each with its
/// own counts.
pub proof fn lemma_hit_is_annotated_per_viewer(
    summoner_id: i32,
    platform: Seq<char>,
    puuid: Seq<char>,
    game: LiveGameView,
    encounters: Map<i32, u16>,
    cache: CacheModel,
    ttl: u64,
    now: u64,
    timestamp: i64,
)
    requires
        lookup(cache, fixed_bytes(puuid, 78), now) == Some(game),
    ensures
        ({
            let found = next(
                LiveGameRequestView { summoner_id, platform, phase: PhaseView::AwaitViewer },
                EventView::ViewerFound { puuid: Some(puuid) },
                cache,
                ttl,
                now,
                timestamp,
            );
            let counted = next(
                LiveGameRequestView { summoner_id, platform, phase: found.phase },
                EventView::EncountersCounted { encounters },
                found.cache,
                ttl,
                now,
                timestamp,
            );
            &&& found.action == (ActionView::CountEncounters {
                summoner_id,
                candidates: participant_ids(game),
            })
            &&& found.cache == cache
            &&& counted.action == (ActionView::Done {
                result: Ok(Some(annotated(game, encounters))),
            })
            &&& counted.cache == cache
        }),
{
}

/// Once a snapshot is assembled, a read under the identity of any of its
/// participants, before the expiry, finds that snapshot.
pub proof fn lemma_assembled_is_found_by_every_participant(
    request: LiveGameRequestView,
    game: CurrentGameInfoView,
    records: Seq<SummonerLiveModelView>,
    rows: Seq<ParticipantLiveStats>,
    cache: CacheModel,
    ttl: u64,
    now: u64,
    timestamp: i64,
    k: int,
    later: u64,
)
    requires
        request.phase == (PhaseView::AwaitStats { game, records }),
        0 <= k < live_game_of(game, records, grouped(rows)).participants.len(),
        later < expiry(now, ttl),
    ensures
        lookup(
            next(request, EventView::StatsFound { rows }, cache, ttl, now, timestamp).cache,
            live_game_of(game, records, grouped(rows)).participants[k].puuid,
            later,
        ) == Some(live_game_of(game, records, grouped(rows))),
{
    let snapshot = live_game_of(game, records, grouped(rows));
    assert(snapshot_keys(snapshot)[k] == snapshot.participants[k].puuid);
}

/// A failure of the match source, like no match at all, ends the request
/// with no live game and is never an error.
pub proof fn lemma_fetch_failure_is_absence(
    request: LiveGameRequestView,
    cache: CacheModel,
    ttl: u64,
    now: u64,
    timestamp: i64,
)
    requires
        request.phase is AwaitGame,
    ensures
        next(request, EventView::FetchFailed, cache, ttl, now, timestamp) == finished(
            Ok(None),
            cache,
        ),
        next(request, EventView::GameFetched { game: None }, cache, ttl, now, timestamp)
            == finished(Ok(None), cache),
{
}

/// After one viewer's request has assembled a snapshot, the request of any
/// participant of that match, begun before the expiry, is answered from
/// the cache: it goes straight to the count of encounters on that snapshot
/// and asks nothing of the match source.
pub proof fn lemma_miss_then_hit(
    request: LiveGameRequestView,
    game: CurrentGameInfoView,
    records: Seq<SummonerLiveModelView>,
    rows: Seq<ParticipantLiveStats>,
    cache: CacheModel,
    ttl: u64,
    now: u64,
    timestamp: i64,
    other: LiveGameRequestView,
    puuid: Seq<char>,
    k: int,
    later: u64,
)
    requires
        request.phase == (PhaseView::AwaitStats { game, records }),
        other.phase == PhaseView::AwaitViewer,
        0 <= k < live_game_of(game, records, grouped(rows)).participants.len(),
        fixed_bytes(puuid, 78) == live_game_of(game, records, grouped(rows)).participants[k].puuid,
        later < expiry(now, ttl),
    ensures
        next(
            other,
            EventView::ViewerFound { puuid: Some(puuid) },
            next(request, EventView::StatsFound { rows }, cache, ttl, now, timestamp).cache,
            ttl,
            later,
            timestamp,
        ) == count_encounters(
            other.summoner_id,
            live_game_of(game, records, grouped(rows)),
            next(request, EventView::StatsFound { rows }, cache, ttl, now, timestamp).cache,
        ),
{
    lemma_assembled_is_found_by_every_participant(
        request,
        game,
        records,
        rows,
        cache,
        ttl,
        now,
        timestamp,
        k,
        later,
    );
}

/// A request never asks to insert a player that the directory has just
/// resolved: whatever accounts the lookups bring back, the players to
/// insert are among those that the directory did not know.
pub proof fn lemma_insert_skips_known(
    request: LiveGameRequestView,
    game: CurrentGameInfoView,
    known: Seq<SummonerLiveModelView>,
    accounts: Seq<AccountView>,
    cache: CacheModel,
    ttl: u64,
    now: u64,
    timestamp: i64,
    k: int,
)
    requires
        request.phase == (PhaseView::AwaitKnown { game }),
    ensures
        ({
            let asked = next(
                request,
                EventView::PlayersFound { players: known },
                cache,
                ttl,
                now,
                timestamp,
            );
            let answered = next(
                LiveGameRequestView { phase: asked.phase, ..request },
                EventView::AccountsFound { accounts },
                asked.cache,
                ttl,
                now,
                timestamp,
            );
            answered.action matches ActionView::InsertPlayers { players } ==> (0 <= k
                < players.len() ==> find_record(known, players[k].puuid) is None)
        }),
{
    let missing = unresolved(identities(game.participants), known);
    if missing.len() > 0 {
        let players = new_summoners_of(
            accounts,
            missing,
            game.participants,
            request.platform,
            timestamp,
        );
        if 0 <= k < players.len() {
            lemma_discovery_skips_known(
                accounts,
                identities(game.participants),
                known,
                game.participants,
                request.platform,
                timestamp,
                k,
            );
        }
    }
}

} // verus!
