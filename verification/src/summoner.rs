//! A player as its page shows it.

use crate::assembly::fixed_bytes;
use crate::fixed_string::ProPlayerSlug;
use crate::utils::{summoner_url, summoner_url_text};
use vstd::prelude::*;
use vstd::utf8::encode_utf8;

verus! {

/// A player as the directory stores it.
#[derive(Clone, Debug, PartialEq, Eq)]
pub struct SummonerModel {
    pub id: i32,
    pub game_name: String,
    pub tag_line: String,
    pub puuid: String,
    pub platform: String,
    pub updated_at: String,
    pub summoner_level: i64,
    pub profile_icon_id: i32,
    pub pro_slug: Option<String>,
}

/// A player as its page shows it.
#[derive(Clone, Debug, PartialEq, Eq)]
pub struct Summoner {
    pub id: i32,
    pub game_name: String,
    pub pro_slug: Option<ProPlayerSlug>,
    pub tag_line: String,
    pub profile_icon_id: u16,
    pub summoner_level: u16,
    pub platform: String,
}

/// `Summoner` as a value.
pub struct SummonerView {
    pub id: i32,
    pub game_name: Seq<char>,
    pub pro_slug: Option<Seq<u8>>,
    pub tag_line: Seq<char>,
    pub profile_icon_id: u16,
    pub summoner_level: u16,
    pub platform: Seq<char>,
}

impl View for Summoner {
    type V = SummonerView;

    open spec fn view(&self) -> SummonerView {
        SummonerView {
            id: self.id,
            game_name: self.game_name@,
            pro_slug: match self.pro_slug {
                Some(slug) => Some(slug.bytes()),
                None => None,
            },
            tag_line: self.tag_line@,
            profile_icon_id: self.profile_icon_id,
            summoner_level: self.summoner_level,
            platform: self.platform@,
        }
    }
}

impl Summoner {
    /// What the page shows of a stored player. Level and icon keep their
    /// low sixteen bits; the slug of a notable player is cut at its
    /// capacity.
    pub fn from_model(model: &SummonerModel) -> (res: Self)
        ensures
            res@ == (SummonerView {
                id: model.id,
                game_name: model.game_name@,
                pro_slug: match model.pro_slug {
                    Some(slug) => Some(fixed_bytes(slug@, 20)),
                    None => None,
                },
                tag_line: model.tag_line@,
                profile_icon_id: model.profile_icon_id as u16,
                summoner_level: model.summoner_level as u16,
                platform: model.platform@,
            }),
    {
        Summoner {
            id: model.id,
            game_name: model.game_name.clone(),
            pro_slug: match &model.pro_slug {
                Some(slug) => Some(ProPlayerSlug::new(slug.as_str())),
                None => None,
            },
            tag_line: model.tag_line.clone(),
            profile_icon_id: #[verifier::truncate] (model.profile_icon_id as u16),
            summoner_level: #[verifier::truncate] (model.summoner_level as u16),
            platform: model.platform.clone(),
        }
    }

    /// Address of the player's page.
    pub fn to_route_path(&self) -> (res: String)
        ensures
            res@ == summoner_url_text(
                self.platform@,
                encode_utf8(self.game_name@),
                encode_utf8(self.tag_line@),
            ),
    {
        summoner_url(self.platform.as_str(), self.game_name.as_str(), self.tag_line.as_str())
    }
}

} // verus!
