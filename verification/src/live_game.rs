//! The snapshot of a match in progress, and the records it is built from.

use crate::fixed_string::{ProPlayerSlug, Puuid, RiotMatchId};
use vstd::prelude::*;

verus! {

/// The rune selection of a participant, as the match source reports it.
#[derive(Clone, Debug, PartialEq, Eq)]
pub struct Perks {
    pub perk_ids: Vec<i64>,
    pub perk_sub_style: i64,
}

/// One participant of a match in progress, as the match source reports it.
/// A participant without identity, or with an empty one, cannot be resolved.
#[derive(Clone, Debug, PartialEq, Eq)]
pub struct CurrentGameParticipant {
    pub puuid: Option<String>,
    pub champion_id: i32,
    pub spell1_id: i64,
    pub spell2_id: i64,
    pub team_id: u16,
    pub profile_icon_id: i64,
    pub perks: Option<Perks>,
}

/// A match in progress, as the match source reports it.
#[derive(Clone, Debug, PartialEq, Eq)]
pub struct CurrentGameInfo {
    pub game_id: i64,
    pub platform_id: String,
    pub game_length: i64,
    pub map_id: u8,
    pub game_queue_config_id: Option<u16>,
    pub participants: Vec<CurrentGameParticipant>,
}

/// What the account lookup knows of an identity.
#[derive(Clone, Debug, PartialEq, Eq)]
pub struct Account {
    pub puuid: String,
    pub game_name: Option<String>,
    pub tag_line: Option<String>,
}

/// A player that the directory knows, under its identity.
#[derive(Clone, Debug, PartialEq, Eq)]
pub struct SummonerLiveModel {
    pub id: i32,
    pub game_name: String,
    pub tag_line: String,
    pub puuid: String,
    pub platform: String,
    pub summoner_level: i32,
    pub pro_slug: Option<String>,
}

/// A player seen for the first time, ready to be written to the directory.
#[derive(Clone, Debug, PartialEq, Eq)]
pub struct TempSummoner {
    pub game_name: String,
    pub tag_line: String,
    pub puuid: String,
    pub platform: String,
    pub summoner_level: u16,
    pub profile_icon_id: u16,
    pub updated_at: i64,
}

/// One row of the history query: what one player did on one champion over
/// the ranked window. Averages are in hundredths.
#[derive(Clone, Copy, Debug, PartialEq, Eq)]
pub struct ParticipantLiveStats {
    pub summoner_id: i32,
    pub champion_id: i32,
    pub total_match: i64,
    pub total_win: i64,
    pub avg_kills: u32,
    pub avg_deaths: u32,
    pub avg_assists: u32,
}

/// History of a participant on the champion it plays now. Averages are in
/// hundredths.
#[derive(Clone, Copy, Debug, PartialEq, Eq)]
pub struct LiveGameParticipantChampionStats {
    pub total_champion_played: u16,
    pub total_champion_wins: u16,
    pub avg_kills: u32,
    pub avg_deaths: u32,
    pub avg_assists: u32,
}

/// Ranked games and wins of a participant over all champions.
#[derive(Clone, Copy, Debug, PartialEq, Eq)]
pub struct LiveGameParticipantRankedStats {
    pub total_ranked: u16,
    pub total_ranked_wins: u16,
}

/// The queue of a match: its numeric id, or unknown where the source
/// reports none.
#[derive(Clone, Copy, Debug, PartialEq, Eq)]
pub enum Queue {
    Id(u16),
    Unknown,
}

/// One participant of a snapshot. `encounter_count` is relative to the
/// viewer of the moment and is zero in a stored snapshot.
#[derive(Clone, Debug, PartialEq, Eq)]
pub struct LiveGameParticipant {
    pub summoner_id: i32,
    pub puuid: Puuid,
    pub champion_id: u16,
    pub summoner_spell1_id: u16,
    pub summoner_spell2_id: u16,
    pub perk_primary_selection_id: u16,
    pub perk_sub_style_id: u16,
    pub game_name: String,
    pub tag_line: String,
    pub platform: String,
    pub summoner_level: u16,
    pub team_id: u16,
    pub ranked_stats: Option<LiveGameParticipantRankedStats>,
    pub champion_stats: Option<LiveGameParticipantChampionStats>,
    pub encounter_count: u16,
    pub pro_player_slug: Option<ProPlayerSlug>,
}

/// The assembled view of one match in progress.
#[derive(Clone, Debug, PartialEq, Eq)]
pub struct LiveGame {
    pub game_id: RiotMatchId,
    pub game_length: u16,
    pub game_map: u8,
    pub queue: Queue,
    pub participants: Vec<LiveGameParticipant>,
}

/// The text of an optional string.
pub open spec fn text_of(s: Option<String>) -> Option<Seq<char>> {
    match s {
        Some(s) => Some(s@),
        None => None,
    }
}

/// `Perks` as a value.
pub struct PerksView {
    pub perk_ids: Seq<i64>,
    pub perk_sub_style: i64,
}

impl View for Perks {
    type V = PerksView;

    open spec fn view(&self) -> PerksView {
        PerksView { perk_ids: self.perk_ids@, perk_sub_style: self.perk_sub_style }
    }
}

/// `CurrentGameParticipant` as a value.
pub struct CurrentGameParticipantView {
    pub puuid: Option<Seq<char>>,
    pub champion_id: i32,
    pub spell1_id: i64,
    pub spell2_id: i64,
    pub team_id: u16,
    pub profile_icon_id: i64,
    pub perks: Option<PerksView>,
}

impl View for CurrentGameParticipant {
    type V = CurrentGameParticipantView;

    open spec fn view(&self) -> CurrentGameParticipantView {
        CurrentGameParticipantView {
            puuid: text_of(self.puuid),
            champion_id: self.champion_id,
            spell1_id: self.spell1_id,
            spell2_id: self.spell2_id,
            team_id: self.team_id,
            profile_icon_id: self.profile_icon_id,
            perks: match self.perks {
                Some(perks) => Some(perks@),
                None => None,
            },
        }
    }
}

/// `CurrentGameInfo` as a value.
pub struct CurrentGameInfoView {
    pub game_id: i64,
    pub platform_id: Seq<char>,
    pub game_length: i64,
    pub map_id: u8,
    pub game_queue_config_id: Option<u16>,
    pub participants: Seq<CurrentGameParticipantView>,
}

impl View for CurrentGameInfo {
    type V = CurrentGameInfoView;

    open spec fn view(&self) -> CurrentGameInfoView {
        CurrentGameInfoView {
            game_id: self.game_id,
            platform_id: self.platform_id@,
            game_length: self.game_length,
            map_id: self.map_id,
            game_queue_config_id: self.game_queue_config_id,
            participants: self.participants@.map_values(|p: CurrentGameParticipant| p@),
        }
    }
}

/// `Account` as a value.
pub struct AccountView {
    pub puuid: Seq<char>,
    pub game_name: Option<Seq<char>>,
    pub tag_line: Option<Seq<char>>,
}

impl View for Account {
    type V = AccountView;

    open spec fn view(&self) -> AccountView {
        AccountView {
            puuid: self.puuid@,
            game_name: text_of(self.game_name),
            tag_line: text_of(self.tag_line),
        }
    }
}

/// `SummonerLiveModel` as a value.
pub struct SummonerLiveModelView {
    pub id: i32,
    pub game_name: Seq<char>,
    pub tag_line: Seq<char>,
    pub puuid: Seq<char>,
    pub platform: Seq<char>,
    pub summoner_level: i32,
    pub pro_slug: Option<Seq<char>>,
}

impl View for SummonerLiveModel {
    type V = SummonerLiveModelView;

    open spec fn view(&self) -> SummonerLiveModelView {
        SummonerLiveModelView {
            id: self.id,
            game_name: self.game_name@,
            tag_line: self.tag_line@,
            puuid: self.puuid@,
            platform: self.platform@,
            summoner_level: self.summoner_level,
            pro_slug: text_of(self.pro_slug),
        }
    }
}

/// `TempSummoner` as a value.
pub struct TempSummonerView {
    pub game_name: Seq<char>,
    pub tag_line: Seq<char>,
    pub puuid: Seq<char>,
    pub platform: Seq<char>,
    pub summoner_level: u16,
    pub profile_icon_id: u16,
    pub updated_at: i64,
}

impl View for TempSummoner {
    type V = TempSummonerView;

    open spec fn view(&self) -> TempSummonerView {
        TempSummonerView {
            game_name: self.game_name@,
            tag_line: self.tag_line@,
            puuid: self.puuid@,
            platform: self.platform@,
            summoner_level: self.summoner_level,
            profile_icon_id: self.profile_icon_id,
            updated_at: self.updated_at,
        }
    }
}

/// `LiveGameParticipant` as a value. Identities are the bytes of their
/// buffers.
pub struct LiveGameParticipantView {
    pub summoner_id: i32,
    pub puuid: Seq<u8>,
    pub champion_id: u16,
    pub summoner_spell1_id: u16,
    pub summoner_spell2_id: u16,
    pub perk_primary_selection_id: u16,
    pub perk_sub_style_id: u16,
    pub game_name: Seq<char>,
    pub tag_line: Seq<char>,
    pub platform: Seq<char>,
    pub summoner_level: u16,
    pub team_id: u16,
    pub ranked_stats: Option<LiveGameParticipantRankedStats>,
    pub champion_stats: Option<LiveGameParticipantChampionStats>,
    pub encounter_count: u16,
    pub pro_player_slug: Option<Seq<u8>>,
}

impl View for LiveGameParticipant {
    type V = LiveGameParticipantView;

    open spec fn view(&self) -> LiveGameParticipantView {
        LiveGameParticipantView {
            summoner_id: self.summoner_id,
            puuid: self.puuid.bytes(),
            champion_id: self.champion_id,
            summoner_spell1_id: self.summoner_spell1_id,
            summoner_spell2_id: self.summoner_spell2_id,
            perk_primary_selection_id: self.perk_primary_selection_id,
            perk_sub_style_id: self.perk_sub_style_id,
            game_name: self.game_name@,
            tag_line: self.tag_line@,
            platform: self.platform@,
            summoner_level: self.summoner_level,
            team_id: self.team_id,
            ranked_stats: self.ranked_stats,
            champion_stats: self.champion_stats,
            encounter_count: self.encounter_count,
            pro_player_slug: match self.pro_player_slug {
                Some(slug) => Some(slug.bytes()),
                None => None,
            },
        }
    }
}

/// `LiveGame` as a value.
pub struct LiveGameView {
    pub game_id: Seq<u8>,
    pub game_length: u16,
    pub game_map: u8,
    pub queue: Queue,
    pub participants: Seq<LiveGameParticipantView>,
}

impl View for LiveGame {
    type V = LiveGameView;

    open spec fn view(&self) -> LiveGameView {
        LiveGameView {
            game_id: self.game_id.bytes(),
            game_length: self.game_length,
            game_map: self.game_map,
            queue: self.queue,
            participants: self.participants@.map_values(|p: LiveGameParticipant| p@),
        }
    }
}

impl LiveGameParticipant {
    /// A copy with the same value.
    pub fn duplicate(&self) -> (res: Self)
        ensures
            res@ == self@,
    {
        LiveGameParticipant {
            summoner_id: self.summoner_id,
            puuid: self.puuid,
            champion_id: self.champion_id,
            summoner_spell1_id: self.summoner_spell1_id,
            summoner_spell2_id: self.summoner_spell2_id,
            perk_primary_selection_id: self.perk_primary_selection_id,
            perk_sub_style_id: self.perk_sub_style_id,
            game_name: self.game_name.clone(),
            tag_line: self.tag_line.clone(),
            platform: self.platform.clone(),
            summoner_level: self.summoner_level,
            team_id: self.team_id,
            ranked_stats: self.ranked_stats,
            champion_stats: self.champion_stats,
            encounter_count: self.encounter_count,
            pro_player_slug: self.pro_player_slug,
        }
    }
}

impl LiveGame {
    /// A copy with the same value.
    pub fn duplicate(&self) -> (res: Self)
        ensures
            res@ == self@,
    {
        let mut participants: Vec<LiveGameParticipant> = Vec::new();
        let mut i: usize = 0;
        while i < self.participants.len()
            invariant
                i <= self.participants@.len(),
                participants@.len() == i,
                forall|j: int| 0 <= j < i ==> (#[trigger] participants@[j])@ == self.participants@[j]@,
            decreases self.participants@.len() - i,
        {
            participants.push(self.participants[i].duplicate());
            i += 1;
        }
        let res = LiveGame {
            game_id: self.game_id,
            game_length: self.game_length,
            game_map: self.game_map,
            queue: self.queue,
            participants,
        };
        assert(res@.participants =~= self@.participants);
        res
    }
}

} // verus!
