//! From a match record to a snapshot: which participants can be resolved,
//! which have to be discovered, and what the snapshot holds of each.

use crate::decimal::{append_signed_decimal, signed_decimal};
use crate::fixed_string::{padded, ProPlayerSlug, Puuid, RiotMatchId};
use crate::live_game::{
    Account, AccountView, CurrentGameInfo, CurrentGameInfoView, CurrentGameParticipant,
    CurrentGameParticipantView, LiveGame, LiveGameParticipant, LiveGameParticipantView,
    LiveGameView, Perks, PerksView, Queue, SummonerLiveModel, SummonerLiveModelView, TempSummoner,
    TempSummonerView,
};
use crate::stats::{champion_stats_of, ranked_stats_of, StatsModel, StatsTable};
use std::collections::HashMap;
use vstd::prelude::*;
use vstd::std_specs::hash::group_hash_axioms;
use vstd::string::{StringExecFns, StringSliceAdditionalSpecFns};
use vstd::utf8::encode_utf8;

verus! {

broadcast use group_hash_axioms;

/// The texts of a list of strings.
pub open spec fn texts(strings: Seq<String>) -> Seq<Seq<char>> {
    strings.map_values(|s: String| s@)
}

/// The values of a list of directory records.
pub open spec fn record_views(records: Seq<SummonerLiveModel>) -> Seq<SummonerLiveModelView> {
    records.map_values(|r: SummonerLiveModel| r@)
}

/// The identity of a participant, where it has one that is not empty.
pub open spec fn identity_of(p: CurrentGameParticipantView) -> Option<Seq<char>> {
    if p.puuid is Some && p.puuid->0.len() > 0 {
        p.puuid
    } else {
        None
    }
}

/// The identities of the participants that have one, in their order.
pub open spec fn identities(participants: Seq<CurrentGameParticipantView>) -> Seq<Seq<char>>
    decreases participants.len(),
{
    if participants.len() == 0 {
        Seq::empty()
    } else {
        let before = identities(participants.drop_last());
        match identity_of(participants.last()) {
            Some(puuid) => before.push(puuid),
            None => before,
        }
    }
}

/// The record that a directory answer holds for an identity: the last one
/// with that identity.
pub open spec fn find_record(
    records: Seq<SummonerLiveModelView>,
    puuid: Seq<char>,
) -> Option<SummonerLiveModelView>
    decreases records.len(),
{
    if records.len() == 0 {
        None
    } else if records.last().puuid == puuid {
        Some(records.last())
    } else {
        find_record(records.drop_last(), puuid)
    }
}

/// The identities for which the directory holds no record, in their order.
pub open spec fn unresolved(
    puuids: Seq<Seq<char>>,
    known: Seq<SummonerLiveModelView>,
) -> Seq<Seq<char>>
    decreases puuids.len(),
{
    if puuids.len() == 0 {
        Seq::empty()
    } else {
        let before = unresolved(puuids.drop_last(), known);
        if find_record(known, puuids.last()) is None {
            before.push(puuids.last())
        } else {
            before
        }
    }
}

/// The identities of the participants of a match that have one. A
/// participant without identity, or with an empty one, is left out.
pub fn participant_puuids(game: &CurrentGameInfo) -> (res: Vec<String>)
    ensures
        texts(res@) == identities(game@.participants),
{
    let mut res: Vec<String> = Vec::new();
    let mut i: usize = 0;
    assert(texts(res@) =~= identities(game@.participants.take(0)));
    while i < game.participants.len()
        invariant
            i <= game.participants@.len(),
            texts(res@) == identities(game@.participants.take(i as int)),
        decreases game.participants@.len() - i,
    {
        proof {
            let next = game@.participants.take(i + 1);
            assert(next.drop_last() =~= game@.participants.take(i as int));
            assert(next.last() == game.participants@[i as int]@);
        }
        let ghost before = res@;
        match &game.participants[i].puuid {
            Some(puuid) => {
                if !puuid.as_str().is_empty() {
                    res.push(puuid.clone());
                    assert(texts(res@) =~= texts(before).push(puuid@));
                }
            },
            None => {},
        }
        i += 1;
    }
    assert(game@.participants.take(game.participants@.len() as int) =~= game@.participants);
    res
}

/// The record of an identity in a directory answer, if it holds one.
pub fn find_summoner<'a>(records: &'a Vec<SummonerLiveModel>, puuid: &str) -> (res: Option<
    &'a SummonerLiveModel,
>)
    ensures
        res is Some <==> find_record(record_views(records@), puuid@) is Some,
        res matches Some(record) ==> find_record(record_views(records@), puuid@) == Some(record@),
{
    let mut i: usize = records.len();
    assert(record_views(records@).take(i as int) =~= record_views(records@));
    while i > 0
        invariant
            i <= records@.len(),
            find_record(record_views(records@), puuid@) == find_record(
                record_views(records@).take(i as int),
                puuid@,
            ),
        decreases i,
    {
        proof {
            let now = record_views(records@).take(i as int);
            assert(now.drop_last() =~= record_views(records@).take(i - 1));
            assert(now.last() == records@[i - 1]@);
        }
        i -= 1;
        if str_eq(records[i].puuid.as_str(), puuid) {
            return Some(&records[i]);
        }
    }
    None
}

/// Whether two texts are the same.
fn str_eq(a: &str, b: &str) -> (res: bool)
    ensures
        res == (a@ == b@),
{
    broadcast use vstd::utf8::encode_utf8_decode_utf8;

    let a_bytes = a.as_bytes();
    let b_bytes = b.as_bytes();
    assert(a_bytes@ == b_bytes@ ==> a@ == b@) by {
        assert(vstd::utf8::decode_utf8(encode_utf8(a@)) == a@);
        assert(vstd::utf8::decode_utf8(encode_utf8(b@)) == b@);
    }
    if a_bytes.len() != b_bytes.len() {
        return false;
    }
    let mut i: usize = 0;
    while i < a_bytes.len()
        invariant
            i <= a_bytes@.len(),
            a_bytes@.len() == b_bytes@.len(),
            a_bytes@ == a.spec_bytes(),
            b_bytes@ == b.spec_bytes(),
            forall|j: int| 0 <= j < i ==> a_bytes@[j] == b_bytes@[j],
        decreases a_bytes@.len() - i,
    {
        if a_bytes[i] != b_bytes[i] {
            return false;
        }
        i += 1;
    }
    assert(a_bytes@ =~= b_bytes@);
    true
}

/// The identities that the directory does not resolve: those are the ones
/// to look up and insert, and no other.
pub fn puuids_not_found(puuids: &Vec<String>, known: &Vec<SummonerLiveModel>) -> (res: Vec<String>)
    ensures
        texts(res@) == unresolved(texts(puuids@), record_views(known@)),
{
    let mut res: Vec<String> = Vec::new();
    let mut i: usize = 0;
    assert(texts(res@) =~= unresolved(texts(puuids@).take(0), record_views(known@)));
    while i < puuids.len()
        invariant
            i <= puuids@.len(),
            texts(res@) == unresolved(texts(puuids@).take(i as int), record_views(known@)),
        decreases puuids@.len() - i,
    {
        proof {
            let next = texts(puuids@).take(i + 1);
            assert(next.drop_last() =~= texts(puuids@).take(i as int));
            assert(next.last() == puuids@[i as int]@);
        }
        let ghost before = res@;
        if find_summoner(known, puuids[i].as_str()).is_none() {
            res.push(puuids[i].clone());
            assert(texts(res@) =~= texts(before).push(puuids@[i as int]@));
        }
        i += 1;
    }
    assert(texts(puuids@).take(puuids@.len() as int) =~= texts(puuids@));
    res
}

/// The identity of a participant, empty where it has none.
pub open spec fn puuid_or_empty(p: CurrentGameParticipantView) -> Seq<char> {
    match p.puuid {
        Some(puuid) => puuid,
        None => Seq::empty(),
    }
}

/// Index of the first participant with this identity, or the number of
/// participants where there is none.
pub open spec fn participant_index(
    participants: Seq<CurrentGameParticipantView>,
    puuid: Seq<char>,
) -> int
    decreases participants.len(),
{
    if participants.len() == 0 {
        0
    } else if puuid_or_empty(participants.first()) == puuid {
        0
    } else {
        1 + participant_index(participants.drop_first(), puuid)
    }
}

/// The record written for a player seen for the first time: name and tag
/// from the account (empty where it has none), level zero, the icon that
/// the match shows.
pub open spec fn new_summoner_of(
    account: AccountView,
    profile_icon_id: i64,
    platform: Seq<char>,
    now: i64,
) -> TempSummonerView {
    TempSummonerView {
        game_name: match account.game_name {
            Some(name) => name,
            None => Seq::empty(),
        },
        tag_line: match account.tag_line {
            Some(tag) => tag,
            None => Seq::empty(),
        },
        puuid: account.puuid,
        platform,
        summoner_level: 0,
        profile_icon_id: profile_icon_id as u16,
        updated_at: now,
    }
}

/// The records to insert: one for each account that answers a requested
/// identity and belongs to a participant of the match, in the order of the
/// accounts.
pub open spec fn new_summoners_of(
    accounts: Seq<AccountView>,
    requested: Seq<Seq<char>>,
    participants: Seq<CurrentGameParticipantView>,
    platform: Seq<char>,
    now: i64,
) -> Seq<TempSummonerView>
    decreases accounts.len(),
{
    if accounts.len() == 0 {
        Seq::empty()
    } else {
        let before = new_summoners_of(
            accounts.drop_last(),
            requested,
            participants,
            platform,
            now,
        );
        let account = accounts.last();
        let at = participant_index(participants, account.puuid);
        if requested.contains(account.puuid) && at < participants.len() {
            before.push(new_summoner_of(account, participants[at].profile_icon_id, platform, now))
        } else {
            before
        }
    }
}

/// The values of a list of new players.
pub open spec fn new_summoner_views(records: Seq<TempSummoner>) -> Seq<TempSummonerView> {
    records.map_values(|r: TempSummoner| r@)
}

/// The values of a list of accounts.
pub open spec fn account_views(accounts: Seq<Account>) -> Seq<AccountView> {
    accounts.map_values(|a: Account| a@)
}

/// Whether `puuid` is one of `puuids`.
fn contains_puuid(puuids: &Vec<String>, puuid: &str) -> (res: bool)
    ensures
        res == texts(puuids@).contains(puuid@),
{
    let mut i: usize = 0;
    while i < puuids.len()
        invariant
            i <= puuids@.len(),
            forall|j: int| 0 <= j < i ==> texts(puuids@)[j] != puuid@,
        decreases puuids@.len() - i,
    {
        if str_eq(puuids[i].as_str(), puuid) {
            assert(texts(puuids@)[i as int] == puuid@);
            return true;
        }
        i += 1;
    }
    false
}

/// The first participant with this identity.
fn find_participant<'a>(game: &'a CurrentGameInfo, puuid: &str) -> (res: Option<
    &'a CurrentGameParticipant,
>)
    ensures
        res is Some <==> participant_index(game@.participants, puuid@) < game@.participants.len(),
        res matches Some(p) ==> p@ == game@.participants[participant_index(
            game@.participants,
            puuid@,
        )],
{
    let mut i: usize = 0;
    assert(game@.participants.skip(0) =~= game@.participants);
    while i < game.participants.len()
        invariant
            i <= game.participants@.len(),
            participant_index(game@.participants, puuid@) == i + participant_index(
                game@.participants.skip(i as int),
                puuid@,
            ),
        decreases game.participants@.len() - i,
    {
        proof {
            let rest = game@.participants.skip(i as int);
            assert(rest.first() == game.participants@[i as int]@);
            assert(rest.drop_first() =~= game@.participants.skip(i + 1));
        }
        let same = match &game.participants[i].puuid {
            Some(own) => str_eq(own.as_str(), puuid),
            None => puuid.is_empty(),
        };
        assert(same == (puuid_or_empty(game.participants@[i as int]@) == puuid@)) by {
            if game.participants@[i as int].puuid is None {
                assert(puuid@.len() == 0 <==> puuid@ =~= Seq::<char>::empty());
            }
        }
        if same {
            return Some(&game.participants[i]);
        }
        i += 1;
    }
    assert(game@.participants.skip(i as int).len() == 0);
    None
}

/// The text of an optional string, empty where there is none.
fn text_or_empty(s: &Option<String>) -> (res: String)
    ensures
        res@ == match *s {
            Some(s) => s@,
            None => Seq::<char>::empty(),
        },
{
    match s {
        Some(s) => s.clone(),
        None => String::new(),
    }
}

/// Builds the records of the players seen for the first time, from the
/// accounts that the lookups brought back. An account that answers no
/// requested identity, or belongs to no participant of the match, is left
/// out.
pub fn new_summoners(
    accounts: &Vec<Account>,
    requested: &Vec<String>,
    game: &CurrentGameInfo,
    platform: &str,
    now: i64,
) -> (res: Vec<TempSummoner>)
    ensures
        new_summoner_views(res@) == new_summoners_of(
            account_views(accounts@),
            texts(requested@),
            game@.participants,
            platform@,
            now,
        ),
{
    let mut res: Vec<TempSummoner> = Vec::new();
    let mut i: usize = 0;
    assert(new_summoner_views(res@) =~= new_summoners_of(
        account_views(accounts@).take(0),
        texts(requested@),
        game@.participants,
        platform@,
        now,
    ));
    while i < accounts.len()
        invariant
            i <= accounts@.len(),
            new_summoner_views(res@) == new_summoners_of(
                account_views(accounts@).take(i as int),
                texts(requested@),
                game@.participants,
                platform@,
                now,
            ),
        decreases accounts@.len() - i,
    {
        proof {
            let next = account_views(accounts@).take(i + 1);
            assert(next.drop_last() =~= account_views(accounts@).take(i as int));
            assert(next.last() == accounts@[i as int]@);
        }
        let account = &accounts[i];
        let ghost before = res@;
        if contains_puuid(requested, account.puuid.as_str()) {
            match find_participant(game, account.puuid.as_str()) {
                Some(participant) => {
                    let record = TempSummoner {
                        game_name: text_or_empty(&account.game_name),
                        tag_line: text_or_empty(&account.tag_line),
                        puuid: account.puuid.clone(),
                        platform: String::from_str(platform),
                        summoner_level: 0,
                        profile_icon_id: #[verifier::truncate] (participant.profile_icon_id as u16),
                        updated_at: now,
                    };
                    assert(record@ == new_summoner_of(
                        account@,
                        participant.profile_icon_id,
                        platform@,
                        now,
                    ));
                    res.push(record);
                    assert(new_summoner_views(res@) =~= new_summoner_views(before).push(record@));
                },
                None => {},
            }
        }
        i += 1;
    }
    assert(account_views(accounts@).take(accounts@.len() as int) =~= account_views(accounts@));
    res
}

/// The two rune ids that a snapshot shows: the first perk id, or zero where
/// the list is empty, and the sub-style; both zero where the record has no
/// perks. Ids keep their low sixteen bits.
pub open spec fn perk_ids_of(perks: Option<PerksView>) -> (u16, u16) {
    match perks {
        None => (0u16, 0u16),
        Some(perks) => (
            if perks.perk_ids.len() > 0 {
                perks.perk_ids[0] as u16
            } else {
                0u16
            },
            perks.perk_sub_style as u16,
        ),
    }
}

/// The bytes of a fixed-capacity string made of `text`.
pub open spec fn fixed_bytes(text: Seq<char>, capacity: nat) -> Seq<u8> {
    padded(encode_utf8(text), capacity)
}

/// What a snapshot holds of a participant that the directory resolves to
/// `record`. The encounter count is zero: it belongs to no viewer yet.
pub open spec fn participant_of(
    raw: CurrentGameParticipantView,
    record: SummonerLiveModelView,
    stats: StatsModel,
) -> LiveGameParticipantView {
    LiveGameParticipantView {
        summoner_id: record.id,
        puuid: fixed_bytes(puuid_or_empty(raw), 78),
        champion_id: raw.champion_id as u16,
        summoner_spell1_id: raw.spell1_id as u16,
        summoner_spell2_id: raw.spell2_id as u16,
        perk_primary_selection_id: perk_ids_of(raw.perks).0,
        perk_sub_style_id: perk_ids_of(raw.perks).1,
        game_name: record.game_name,
        tag_line: record.tag_line,
        platform: record.platform,
        summoner_level: record.summoner_level as u16,
        team_id: raw.team_id,
        ranked_stats: ranked_stats_of(stats, record.id),
        champion_stats: champion_stats_of(stats, record.id, raw.champion_id),
        encounter_count: 0,
        pro_player_slug: match record.pro_slug {
            Some(slug) => Some(fixed_bytes(slug, 20)),
            None => None,
        },
    }
}

/// The participants of a snapshot: one for each participant of the record
/// that has an identity which the directory resolves, in their order. The
/// others are left out.
pub open spec fn participants_of(
    participants: Seq<CurrentGameParticipantView>,
    records: Seq<SummonerLiveModelView>,
    stats: StatsModel,
) -> Seq<LiveGameParticipantView>
    decreases participants.len(),
{
    if participants.len() == 0 {
        Seq::empty()
    } else {
        let before = participants_of(participants.drop_last(), records, stats);
        let raw = participants.last();
        match identity_of(raw) {
            Some(puuid) => match find_record(records, puuid) {
                Some(record) => before.push(participant_of(raw, record, stats)),
                None => before,
            },
            None => before,
        }
    }
}

/// The text of a match identity: the game id, `_`, the platform.
pub open spec fn match_id_text(game_id: i64, platform_id: Seq<char>) -> Seq<char> {
    signed_decimal(game_id as int) + seq!['_'] + platform_id
}

/// The queue of a match: its id, or unknown where the record has none.
pub open spec fn queue_of(config_id: Option<u16>) -> Queue {
    match config_id {
        Some(id) => Queue::Id(id),
        None => Queue::Unknown,
    }
}

/// The snapshot of a match, given what the directory knows of its
/// participants and their history.
pub open spec fn live_game_of(
    game: CurrentGameInfoView,
    records: Seq<SummonerLiveModelView>,
    stats: StatsModel,
) -> LiveGameView {
    LiveGameView {
        game_id: fixed_bytes(match_id_text(game.game_id, game.platform_id), 17),
        game_length: game.game_length as u16,
        game_map: game.map_id,
        queue: queue_of(game.game_queue_config_id),
        participants: participants_of(game.participants, records, stats),
    }
}

/// The values of a list of snapshot participants.
pub open spec fn participant_views(participants: Seq<LiveGameParticipant>) -> Seq<
    LiveGameParticipantView,
> {
    participants.map_values(|p: LiveGameParticipant| p@)
}

/// The two rune ids that a snapshot shows of a participant.
fn perk_ids(perks: &Option<Perks>) -> (res: (u16, u16))
    ensures
        res == perk_ids_of(
            match *perks {
                Some(perks) => Some(perks@),
                None => None,
            },
        ),
{
    match perks {
        None => (0, 0),
        Some(perks) => {
            let primary: u16 = if perks.perk_ids.len() > 0 {
                #[verifier::truncate]
                (perks.perk_ids[0] as u16)
            } else {
                0
            };
            (primary, #[verifier::truncate] (perks.perk_sub_style as u16))
        },
    }
}

/// Builds the snapshot's view of one participant from the match record, the
/// directory record of its identity, and its history.
fn assemble_participant(
    raw: &CurrentGameParticipant,
    puuid: &str,
    record: &SummonerLiveModel,
    stats: &StatsTable,
) -> (res: LiveGameParticipant)
    requires
        puuid@ == puuid_or_empty(raw@),
    ensures
        res@ == participant_of(raw@, record@, stats@),
{
    let (perk_primary_selection_id, perk_sub_style_id) = perk_ids(&raw.perks);
    let pro_player_slug = match &record.pro_slug {
        Some(slug) => Some(ProPlayerSlug::new(slug.as_str())),
        None => None,
    };
    LiveGameParticipant {
        summoner_id: record.id,
        puuid: Puuid::new(puuid),
        champion_id: #[verifier::truncate] (raw.champion_id as u16),
        summoner_spell1_id: #[verifier::truncate] (raw.spell1_id as u16),
        summoner_spell2_id: #[verifier::truncate] (raw.spell2_id as u16),
        perk_primary_selection_id,
        perk_sub_style_id,
        game_name: record.game_name.clone(),
        tag_line: record.tag_line.clone(),
        platform: record.platform.clone(),
        summoner_level: #[verifier::truncate] (record.summoner_level as u16),
        team_id: raw.team_id,
        ranked_stats: stats.ranked_stats(record.id),
        champion_stats: stats.champion_stats(record.id, raw.champion_id),
        encounter_count: 0,
        pro_player_slug,
    }
}

/// Assembles the snapshot of a match: its identity, length, map and queue,
/// and one participant for each participant of the record that has an
/// identity which `records` resolves. A participant without identity, with
/// an empty one, or without record is left out. Every encounter count is
/// zero.
pub fn get_live_game_data(
    game: &CurrentGameInfo,
    records: &Vec<SummonerLiveModel>,
    stats: &StatsTable,
) -> (res: LiveGame)
    ensures
        res@ == live_game_of(game@, record_views(records@), stats@),
{
    let mut participants: Vec<LiveGameParticipant> = Vec::new();
    let mut i: usize = 0;
    assert(participant_views(participants@) =~= participants_of(
        game@.participants.take(0),
        record_views(records@),
        stats@,
    ));
    while i < game.participants.len()
        invariant
            i <= game.participants@.len(),
            participant_views(participants@) == participants_of(
                game@.participants.take(i as int),
                record_views(records@),
                stats@,
            ),
        decreases game.participants@.len() - i,
    {
        proof {
            let next = game@.participants.take(i + 1);
            assert(next.drop_last() =~= game@.participants.take(i as int));
            assert(next.last() == game.participants@[i as int]@);
        }
        let raw = &game.participants[i];
        let ghost before = participants@;
        match &raw.puuid {
            Some(puuid) => {
                if !puuid.as_str().is_empty() {
                    match find_summoner(records, puuid.as_str()) {
                        Some(record) => {
                            let participant = assemble_participant(
                                raw,
                                puuid.as_str(),
                                record,
                                stats,
                            );
                            participants.push(participant);
                            assert(participant_views(participants@) =~= participant_views(
                                before,
                            ).push(participant@));
                        },
                        None => {},
                    }
                }
            },
            None => {},
        }
        i += 1;
    }
    assert(game@.participants.take(game.participants@.len() as int) =~= game@.participants);
    proof {
        reveal_strlit("_");
    }
    let mut id = String::new();
    append_signed_decimal(&mut id, game.game_id);
    id.append("_");
    id.append(game.platform_id.as_str());
    assert(id@ =~= match_id_text(game.game_id, game.platform_id@));
    LiveGame {
        game_id: RiotMatchId::new(id.as_str()),
        game_length: #[verifier::truncate] (game.game_length as u16),
        game_map: game.map_id,
        queue: match game.game_queue_config_id {
            Some(id) => Queue::Id(id),
            None => Queue::Unknown,
        },
        participants,
    }
}

/// A participant as one viewer sees it: with the number of earlier matches
/// that the viewer shares with it, where the count is known.
pub open spec fn annotated_participant(
    p: LiveGameParticipantView,
    encounters: Map<i32, u16>,
) -> LiveGameParticipantView {
    if encounters.dom().contains(p.summoner_id) {
        LiveGameParticipantView { encounter_count: encounters[p.summoner_id], ..p }
    } else {
        p
    }
}

/// A snapshot as one viewer sees it: every participant annotated, nothing
/// else changed.
pub open spec fn annotated(game: LiveGameView, encounters: Map<i32, u16>) -> LiveGameView {
    LiveGameView {
        participants: game.participants.map_values(
            |p: LiveGameParticipantView| annotated_participant(p, encounters),
        ),
        ..game
    }
}

/// The local ids of the participants of a snapshot, in their order.
pub open spec fn participant_ids(game: LiveGameView) -> Seq<i32> {
    game.participants.map_values(|p: LiveGameParticipantView| p.summoner_id)
}

/// The local ids of the participants of a snapshot: the players to count
/// encounters with, in one query.
pub fn summoner_ids(game: &LiveGame) -> (res: Vec<i32>)
    ensures
        res@ == participant_ids(game@),
{
    let mut res: Vec<i32> = Vec::new();
    let mut i: usize = 0;
    while i < game.participants.len()
        invariant
            i <= game.participants@.len(),
            res@ == participant_ids(game@).take(i as int),
        decreases game.participants@.len() - i,
    {
        res.push(game.participants[i].summoner_id);
        assert(res@ =~= participant_ids(game@).take(i + 1));
        i += 1;
    }
    assert(participant_ids(game@).take(game.participants@.len() as int) =~= participant_ids(game@));
    res
}

/// Sets the encounter count of every participant for which `encounters`
/// holds one, and leaves everything else as it is.
pub fn add_encounters(game_data: LiveGame, encounters: &HashMap<i32, u16>) -> (res: LiveGame)
    ensures
        res@ == annotated(game_data@, encounters@),
{
    let mut game = game_data;
    let mut i: usize = 0;
    while i < game.participants.len()
        invariant
            i <= game.participants@.len(),
            game.participants@.len() == game_data.participants@.len(),
            game.game_id == game_data.game_id,
            game.game_length == game_data.game_length,
            game.game_map == game_data.game_map,
            game.queue == game_data.queue,
            forall|j: int|
                0 <= j < i ==> (#[trigger] game.participants@[j])@ == annotated_participant(
                    game_data.participants@[j]@,
                    encounters@,
                ),
            forall|j: int|
                i <= j < game.participants@.len() ==> #[trigger] game.participants@[j]
                    == game_data.participants@[j],
        decreases game.participants@.len() - i,
    {
        match encounters.get(&game.participants[i].summoner_id) {
            Some(count) => {
                game.participants[i].encounter_count = *count;
            },
            None => {},
        }
        i += 1;
    }
    assert(game@.participants =~= annotated(game_data@, encounters@).participants);
    game
}

/// Discovery asks only for identities that the directory does not resolve.
pub proof fn lemma_unresolved_are_unknown(
    puuids: Seq<Seq<char>>,
    known: Seq<SummonerLiveModelView>,
    puuid: Seq<char>,
)
    requires
        unresolved(puuids, known).contains(puuid),
    ensures
        find_record(known, puuid) is None,
        puuids.contains(puuid),
    decreases puuids.len(),
{
    let all = unresolved(puuids, known);
    let k = choose|k: int| 0 <= k < all.len() && all[k] == puuid;
    let before = unresolved(puuids.drop_last(), known);
    if k < before.len() {
        assert(before[k] == puuid);
        lemma_unresolved_are_unknown(puuids.drop_last(), known, puuid);
        let j = choose|j: int| 0 <= j < puuids.drop_last().len() && puuids.drop_last()[j] == puuid;
        assert(puuids[j] == puuid);
    } else {
        assert(puuids[puuids.len() - 1] == puuid);
    }
}

/// Every identity that the directory does not resolve is asked for.
pub proof fn lemma_unknown_are_unresolved(
    puuids: Seq<Seq<char>>,
    known: Seq<SummonerLiveModelView>,
    i: int,
)
    requires
        0 <= i < puuids.len(),
        find_record(known, puuids[i]) is None,
    ensures
        unresolved(puuids, known).contains(puuids[i]),
    decreases puuids.len(),
{
    let all = unresolved(puuids, known);
    let before = unresolved(puuids.drop_last(), known);
    if i == puuids.len() - 1 {
        assert(all[all.len() - 1] == puuids[i]);
    } else {
        lemma_unknown_are_unresolved(puuids.drop_last(), known, i);
        let k = choose|k: int| 0 <= k < before.len() && before[k] == puuids.drop_last()[i];
        assert(all[k] == puuids[i]);
    }
}

/// Every record to insert answers a requested identity.
pub proof fn lemma_new_summoners_were_requested(
    accounts: Seq<AccountView>,
    requested: Seq<Seq<char>>,
    participants: Seq<CurrentGameParticipantView>,
    platform: Seq<char>,
    now: i64,
    k: int,
)
    requires
        0 <= k < new_summoners_of(accounts, requested, participants, platform, now).len(),
    ensures
        requested.contains(
            new_summoners_of(accounts, requested, participants, platform, now)[k].puuid,
        ),
    decreases accounts.len(),
{
    let before = new_summoners_of(accounts.drop_last(), requested, participants, platform, now);
    if k < before.len() {
        lemma_new_summoners_were_requested(
            accounts.drop_last(),
            requested,
            participants,
            platform,
            now,
            k,
        );
    }
}

/// Discovery never inserts an identity that the directory already resolves:
/// where the requested identities are those that `known` does not resolve,
/// no record to insert has an identity that `known` resolves.
pub proof fn lemma_discovery_skips_known(
    accounts: Seq<AccountView>,
    puuids: Seq<Seq<char>>,
    known: Seq<SummonerLiveModelView>,
    participants: Seq<CurrentGameParticipantView>,
    platform: Seq<char>,
    now: i64,
    k: int,
)
    requires
        0 <= k < new_summoners_of(
            accounts,
            unresolved(puuids, known),
            participants,
            platform,
            now,
        ).len(),
    ensures
        find_record(
            known,
            new_summoners_of(accounts, unresolved(puuids, known), participants, platform, now)[k].puuid,
        ) is None,
{
    let requested = unresolved(puuids, known);
    lemma_new_summoners_were_requested(accounts, requested, participants, platform, now, k);
    lemma_unresolved_are_unknown(
        puuids,
        known,
        new_summoners_of(accounts, requested, participants, platform, now)[k].puuid,
    );
}

/// Assembly includes every participant that has an identity which the
/// directory resolves.
pub proof fn lemma_resolved_are_included(
    participants: Seq<CurrentGameParticipantView>,
    records: Seq<SummonerLiveModelView>,
    stats: StatsModel,
    i: int,
)
    requires
        0 <= i < participants.len(),
        identity_of(participants[i]) is Some,
        find_record(records, identity_of(participants[i])->0) is Some,
    ensures
        participants_of(participants, records, stats).contains(
            participant_of(
                participants[i],
                find_record(records, identity_of(participants[i])->0)->0,
                stats,
            ),
        ),
    decreases participants.len(),
{
    let all = participants_of(participants, records, stats);
    let before = participants_of(participants.drop_last(), records, stats);
    if i == participants.len() - 1 {
        assert(all[all.len() - 1] == participant_of(
            participants[i],
            find_record(records, identity_of(participants[i])->0)->0,
            stats,
        ));
    } else {
        lemma_resolved_are_included(participants.drop_last(), records, stats, i);
        let want = participant_of(
            participants[i],
            find_record(records, identity_of(participants[i])->0)->0,
            stats,
        );
        let k = choose|k: int| 0 <= k < before.len() && before[k] == want;
        assert(all[k] == want);
    }
}

/// Assembly includes nothing else: every participant of a snapshot comes
/// from a participant of the record that has an identity which the
/// directory resolves. One without identity, or with an empty one, is
/// skipped.
pub proof fn lemma_included_are_resolved(
    participants: Seq<CurrentGameParticipantView>,
    records: Seq<SummonerLiveModelView>,
    stats: StatsModel,
    k: int,
) -> (i: int)
    requires
        0 <= k < participants_of(participants, records, stats).len(),
    ensures
        0 <= i < participants.len(),
        identity_of(participants[i]) is Some,
        find_record(records, identity_of(participants[i])->0) is Some,
        participants_of(participants, records, stats)[k] == participant_of(
            participants[i],
            find_record(records, identity_of(participants[i])->0)->0,
            stats,
        ),
    decreases participants.len(),
{
    let before = participants_of(participants.drop_last(), records, stats);
    if k < before.len() {
        lemma_included_are_resolved(participants.drop_last(), records, stats, k)
    } else {
        participants.len() - 1
    }
}

/// A snapshot has at most as many participants as the record, and exactly
/// as many where every participant is resolved.
pub proof fn lemma_participants_count(
    participants: Seq<CurrentGameParticipantView>,
    records: Seq<SummonerLiveModelView>,
    stats: StatsModel,
)
    ensures
        participants_of(participants, records, stats).len() <= participants.len(),
        (forall|i: int|
            0 <= i < participants.len() ==> identity_of(#[trigger] participants[i]) is Some
                && find_record(records, identity_of(participants[i])->0) is Some)
            ==> participants_of(participants, records, stats).len() == participants.len(),
    decreases participants.len(),
{
    if participants.len() > 0 {
        let rest = participants.drop_last();
        lemma_participants_count(rest, records, stats);
        if forall|i: int|
            0 <= i < participants.len() ==> identity_of(#[trigger] participants[i]) is Some
                && find_record(records, identity_of(participants[i])->0) is Some {
            assert forall|i: int| 0 <= i < rest.len() implies identity_of(#[trigger] rest[i])
                is Some && find_record(records, identity_of(rest[i])->0) is Some by {
                assert(rest[i] == participants[i]);
            }
            assert(identity_of(participants[participants.len() - 1]) is Some);
        }
    }
}

/// Annotation is per viewer: it changes no identity and no count but the
/// encounter count, so two viewers of one snapshot differ in nothing else.
pub proof fn lemma_annotated_differs_in_count_only(
    game: LiveGameView,
    encounters: Map<i32, u16>,
    k: int,
)
    requires
        0 <= k < game.participants.len(),
    ensures
        annotated(game, encounters).participants.len() == game.participants.len(),
        annotated(game, encounters).participants[k] == (LiveGameParticipantView {
            encounter_count: annotated(game, encounters).participants[k].encounter_count,
            ..game.participants[k]
        }),
        annotated(game, encounters).participants[k].encounter_count == if encounters.dom().contains(
            game.participants[k].summoner_id,
        ) {
            encounters[game.participants[k].summoner_id]
        } else {
            game.participants[k].encounter_count
        },
{
}

} // verus!
