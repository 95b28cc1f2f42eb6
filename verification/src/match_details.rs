//! What the overview of a finished match shows: the two teams, the viewer's
//! first, and the marks of each row.

use vstd::prelude::*;
use vstd::string::StringExecFns;

verus! {

/// What the overview reads of one participant of a finished match.
#[derive(Clone, Copy, Debug, PartialEq, Eq)]
pub struct TeamMember {
    pub summoner_id: i32,
    pub team_id: u16,
    pub won: bool,
}

/// The two teams of a match as one viewer sees them: its own team first.
/// The teams are given by the positions of their members.
#[derive(Clone, Debug, PartialEq, Eq)]
pub struct TeamSplit {
    pub team_id: u16,
    pub won: bool,
    pub other_team_id: u16,
    pub own: Vec<usize>,
    pub other: Vec<usize>,
}

/// Index of the first member with this id, or the number of members where
/// there is none.
pub open spec fn member_index(details: Seq<TeamMember>, summoner_id: i32) -> int
    decreases details.len(),
{
    if details.len() == 0 {
        0
    } else if details.first().summoner_id == summoner_id {
        0
    } else {
        1 + member_index(details.drop_first(), summoner_id)
    }
}

/// The positions, in order, of the members that are on `team_id` (where
/// `on_team` holds) or on another team (where it does not).
pub open spec fn team_positions(details: Seq<TeamMember>, team_id: u16, on_team: bool) -> Seq<int>
    decreases details.len(),
{
    if details.len() == 0 {
        Seq::empty()
    } else {
        let before = team_positions(details.drop_last(), team_id, on_team);
        if (details.last().team_id == team_id) == on_team {
            before.push(details.len() - 1)
        } else {
            before
        }
    }
}

/// A list of positions as numbers.
pub open spec fn as_positions(list: Seq<usize>) -> Seq<int> {
    list.map_values(|p: usize| p as int)
}

/// The team that faces `team_id`: 200 for team 100, and 100 for any other.
pub open spec fn opposing_team(team_id: u16) -> u16 {
    if team_id == 100 {
        200
    } else {
        100
    }
}

/// The positions of the members on `team_id`, or of those that are not.
fn positions(details: &Vec<TeamMember>, team_id: u16, on_team: bool) -> (res: Vec<usize>)
    ensures
        as_positions(res@) == team_positions(details@, team_id, on_team),
{
    let mut res: Vec<usize> = Vec::new();
    let mut i: usize = 0;
    assert(details@.take(0) =~= Seq::<TeamMember>::empty());
    assert(as_positions(res@) =~= Seq::<int>::empty());
    while i < details.len()
        invariant
            i <= details@.len(),
            as_positions(res@) == team_positions(details@.take(i as int), team_id, on_team),
        decreases details@.len() - i,
    {
        proof {
            let next = details@.take(i + 1);
            assert(next.drop_last() =~= details@.take(i as int));
            assert(next.last() == details@[i as int]);
        }
        let ghost before = res@;
        if (details[i].team_id == team_id) == on_team {
            res.push(i);
            assert(as_positions(res@) =~= as_positions(before).push(i as int));
        }
        i += 1;
    }
    assert(details@.take(details@.len() as int) =~= details@);
    res
}

/// Splits the participants of a match into the viewer's team and the other
/// one. The viewer is the first participant with `summoner_id`; without one
/// there is no split. Each team keeps the order of the participants.
pub fn split_teams(details: &Vec<TeamMember>, summoner_id: i32) -> (res: Option<TeamSplit>)
    ensures
        res is Some <==> member_index(details@, summoner_id) < details@.len(),
        res matches Some(split) ==> {
            let viewer = details@[member_index(details@, summoner_id)];
            &&& split.team_id == viewer.team_id
            &&& split.won == viewer.won
            &&& split.other_team_id == opposing_team(viewer.team_id)
            &&& as_positions(split.own@) == team_positions(details@, viewer.team_id, true)
            &&& as_positions(split.other@) == team_positions(details@, viewer.team_id, false)
        },
{
    let mut i: usize = 0;
    assert(details@.skip(0) =~= details@);
    while i < details.len()
        invariant
            i <= details@.len(),
            member_index(details@, summoner_id) == i + member_index(
                details@.skip(i as int),
                summoner_id,
            ),
        decreases details@.len() - i,
    {
        proof {
            let rest = details@.skip(i as int);
            assert(rest.first() == details@[i as int]);
            assert(rest.drop_first() =~= details@.skip(i + 1));
        }
        if details[i].summoner_id == summoner_id {
            let team_id = details[i].team_id;
            return Some(
                TeamSplit {
                    team_id,
                    won: details[i].won,
                    other_team_id: if team_id == 100 {
                        200
                    } else {
                        100
                    },
                    own: positions(details, team_id, true),
                    other: positions(details, team_id, false),
                },
            );
        }
        i += 1;
    }
    assert(details@.skip(i as int).len() == 0);
    None
}

/// The word for the outcome of a team.
pub fn result_label(won: bool) -> (res: &'static str)
    ensures
        res@ == if won {
            "Victory"@
        } else {
            "Defeat"@
        },
{
    if won {
        "Victory"
    } else {
        "Defeat"
    }
}

/// The name of a team's side: blue for team 100, red for any other.
pub fn team_label(team_id: u16) -> (res: &'static str)
    ensures
        res@ == if team_id == 100 {
            "(Blue Team)"@
        } else {
            "(Red Team)"@
        },
{
    if team_id == 100 {
        "(Blue Team)"
    } else {
        "(Red Team)"
    }
}

/// The background of a row: blue for a team that won, red for one that
/// lost, and a lighter shade for the viewer's own row.
pub fn row_class(won: bool, is_viewer: bool) -> (res: &'static str)
    ensures
        res@ == if won {
            if is_viewer {
                "bg-blue-800"@
            } else {
                "bg-blue-900"@
            }
        } else {
            if is_viewer {
                "bg-red-800"@
            } else {
                "bg-red-900"@
            }
        },
{
    if won {
        if is_viewer {
            "bg-blue-800"
        } else {
            "bg-blue-900"
        }
    } else {
        if is_viewer {
            "bg-red-800"
        } else {
            "bg-red-900"
        }
    }
}

/// Whether a row links to the earlier matches with the viewer: only where
/// there is more than one.
pub fn shows_encounters(encounter_count: u16) -> (res: bool)
    ensures
        res == (encounter_count > 1),
{
    encounter_count > 1
}

/// Address of the page of a notable player.
pub fn pro_player_url(slug: &str) -> (res: String)
    ensures
        res@ == "https://lolpros.gg/player/"@ + slug@,
{
    let mut out = String::from_str("https://lolpros.gg/player/");
    out.append(slug);
    out
}

/// Every position of a side is a position of the list.
pub proof fn lemma_team_positions_bound(details: Seq<TeamMember>, team_id: u16, on_team: bool)
    ensures
        forall|k: int|
            0 <= k < team_positions(details, team_id, on_team).len() ==> 0 <= (
            #[trigger] team_positions(details, team_id, on_team)[k]) < details.len(),
    decreases details.len(),
{
    if details.len() > 0 {
        let before = team_positions(details.drop_last(), team_id, on_team);
        lemma_team_positions_bound(details.drop_last(), team_id, on_team);
        assert forall|k: int|
            0 <= k < team_positions(details, team_id, on_team).len() implies 0 <= (
        #[trigger] team_positions(details, team_id, on_team)[k]) < details.len() by {
            if k < before.len() {
                assert(team_positions(details, team_id, on_team)[k] == before[k]);
            }
        }
    }
}

/// Every participant is on exactly one side of a split: its position is on
/// the side of `team_id` where it is on that team, and on the other side
/// where it is not.
pub proof fn lemma_team_positions(details: Seq<TeamMember>, team_id: u16, on_team: bool, i: int)
    requires
        0 <= i < details.len(),
    ensures
        team_positions(details, team_id, on_team).contains(i) <==> (details[i].team_id == team_id)
            == on_team,
    decreases details.len(),
{
    let all = team_positions(details, team_id, on_team);
    let rest = details.drop_last();
    let before = team_positions(rest, team_id, on_team);
    lemma_team_positions_bound(rest, team_id, on_team);
    if i < details.len() - 1 {
        lemma_team_positions(rest, team_id, on_team, i);
        if before.contains(i) {
            let k = choose|k: int| 0 <= k < before.len() && before[k] == i;
            assert(all[k] == i);
        }
        if all.contains(i) {
            let k = choose|k: int| 0 <= k < all.len() && all[k] == i;
            if k < before.len() {
                assert(before[k] == i);
            }
        }
    } else {
        if (details.last().team_id == team_id) == on_team {
            assert(all[all.len() - 1] == i);
        } else {
            if all.contains(i) {
                let k = choose|k: int| 0 <= k < all.len() && all[k] == i;
                assert(before[k] < rest.len());
            }
        }
    }
}

} // verus!
