//! The user's endorsement decisions.
use vstd::prelude::*;

use crate::cache::Cacheable;
use crate::key::{mod_page_url, mod_page_url_string};
use crate::text::same_text;
use crate::tracking::first_appearance;

verus! {

/// What the user decided about a mod.
#[derive(Clone, Copy, Debug, PartialEq, Eq, Structural)]
pub enum EndorsementStatus {
    Endorsed,
    Undecided,
    Abstained,
}

impl EndorsementStatus {
    /// The mark shown beside a tracked mod: a thumbs-up when endorsed,
    /// nothing when undecided, a prohibition sign when abstained.
    pub fn display_for_tracked(&self) -> (r: String)
        ensures
            r@ == match *self {
                EndorsementStatus::Endorsed => "👍🏻"@,
                EndorsementStatus::Undecided => ""@,
                EndorsementStatus::Abstained => "🚫"@,
            },
    {
        match self {
            EndorsementStatus::Endorsed => String::from_str("👍🏻"),
            EndorsementStatus::Undecided => String::from_str(""),
            EndorsementStatus::Abstained => String::from_str("🚫"),
        }
    }
}

/// One endorsement decision of the user.
#[derive(Debug)]
pub struct UserEndorsement {
    pub date: u64,
    pub domain_name: String,
    pub mod_id: u32,
    pub status: EndorsementStatus,
    pub version: String,
}

impl Clone for UserEndorsement {
    fn clone(&self) -> (r: Self)
        ensures
            r == *self,
    {
        UserEndorsement {
            date: self.date,
            domain_name: self.domain_name.clone(),
            mod_id: self.mod_id,
            status: self.status,
            version: self.version.clone(),
        }
    }
}

impl UserEndorsement {
    pub fn status(&self) -> (r: &EndorsementStatus)
        ensures
            *r == self.status,
    {
        &self.status
    }

    pub fn mod_id(&self) -> (r: u32)
        ensures
            r == self.mod_id,
    {
        self.mod_id
    }

    /// The web page of the endorsed mod.
    pub fn url(&self) -> (r: String)
        ensures
            r@ == mod_page_url(self.domain_name@, self.mod_id as nat),
    {
        mod_page_url_string(self.domain_name.as_str(), self.mod_id)
    }
}

/// All endorsement decisions of the user, with the list's ETag.
#[derive(Debug, Clone)]
pub struct EndorsementList {
    pub mods: Vec<UserEndorsement>,
    pub etag: String,
}

pub open spec fn endorsement_domains(mods: Seq<UserEndorsement>) -> Seq<Seq<char>> {
    mods.map_values(|m: UserEndorsement| m.domain_name@)
}

pub open spec fn endorsement_in_game(g: Seq<char>) -> spec_fn(UserEndorsement) -> bool {
    |m: UserEndorsement| m.domain_name@ == g
}

impl EndorsementList {
    /// The storage key of the endorsement list.
    pub fn listkey() -> (r: &'static str)
        ensures
            r@ == "endorsements"@,
    {
        "endorsements"
    }

    /// The decisions about mods of one game, in list order.
    pub fn by_game(&self, game: String) -> (r: Vec<&UserEndorsement>)
        ensures
            r@.map_values(|m: &UserEndorsement| *m) == self.mods@.filter(endorsement_in_game(game@)),
    {
        let mut r: Vec<&UserEndorsement> = Vec::new();
        let mut i: usize = 0;
        while i < self.mods.len()
            invariant
                i <= self.mods@.len(),
                r@.map_values(|m: &UserEndorsement| *m) == self.mods@.subrange(0, i as int).filter(
                    endorsement_in_game(game@),
                ),
            decreases self.mods@.len() - i,
        {
            let m = &self.mods[i];
            proof {
                reveal(Seq::filter);
                assert(self.mods@.subrange(0, i + 1).drop_last() =~= self.mods@.subrange(0, i as int));
            }
            if same_text(m.domain_name.as_str(), game.as_str()) {
                r.push(m);
            }
            proof {
                assert(r@.map_values(|m: &UserEndorsement| *m) =~= self.mods@.subrange(0, i + 1).filter(
                    endorsement_in_game(game@),
                ));
            }
            i = i + 1;
        }
        proof {
            assert(self.mods@.subrange(0, self.mods@.len() as int) =~= self.mods@);
        }
        r
    }

    fn copies_in_game(&self, game: &str) -> (r: Vec<UserEndorsement>)
        ensures
            r@ == self.mods@.filter(endorsement_in_game(game@)),
    {
        let mut r: Vec<UserEndorsement> = Vec::new();
        let mut i: usize = 0;
        while i < self.mods.len()
            invariant
                i <= self.mods@.len(),
                r@ == self.mods@.subrange(0, i as int).filter(endorsement_in_game(game@)),
            decreases self.mods@.len() - i,
        {
            let m = &self.mods[i];
            proof {
                reveal(Seq::filter);
                assert(self.mods@.subrange(0, i + 1).drop_last() =~= self.mods@.subrange(0, i as int));
            }
            if same_text(m.domain_name.as_str(), game) {
                r.push(m.clone());
            }
            proof {
                assert(r@ =~= self.mods@.subrange(0, i + 1).filter(endorsement_in_game(game@)));
            }
            i = i + 1;
        }
        proof {
            assert(self.mods@.subrange(0, self.mods@.len() as int) =~= self.mods@);
        }
        r
    }

    /// The decisions grouped by game: one entry per game, games in the order in
    /// which they first occur in the list, decisions in list order.
    pub fn get_game_map(&self) -> (r: Vec<(String, Vec<UserEndorsement>)>)
        ensures
            r@.len() == first_appearance(endorsement_domains(self.mods@)).len(),
            forall|k: int|
                0 <= k < r@.len() ==> {
                    &&& (#[trigger] r@[k]).0@ == first_appearance(endorsement_domains(self.mods@))[k]
                    &&& r@[k].1@ == self.mods@.filter(endorsement_in_game(r@[k].0@))
                },
    {
        let mut r: Vec<(String, Vec<UserEndorsement>)> = Vec::new();
        let mut i: usize = 0;
        while i < self.mods.len()
            invariant
                i <= self.mods@.len(),
                r@.len() == first_appearance(endorsement_domains(self.mods@.subrange(0, i as int))).len(),
                forall|k: int|
                    0 <= k < r@.len() ==> {
                        &&& (#[trigger] r@[k]).0@ == first_appearance(
                            endorsement_domains(self.mods@.subrange(0, i as int)),
                        )[k]
                        &&& r@[k].1@ == self.mods@.filter(endorsement_in_game(r@[k].0@))
                    },
            decreases self.mods@.len() - i,
        {
            let d = &self.mods[i].domain_name;
            let ghost before = first_appearance(endorsement_domains(self.mods@.subrange(0, i as int)));
            proof {
                assert(endorsement_domains(self.mods@.subrange(0, i + 1)) =~= endorsement_domains(
                    self.mods@.subrange(0, i as int),
                ).push(d@));
                assert(endorsement_domains(self.mods@.subrange(0, i + 1)).drop_last()
                    =~= endorsement_domains(self.mods@.subrange(0, i as int)));
            }
            let mut found = false;
            let mut j: usize = 0;
            while j < r.len()
                invariant
                    j <= r@.len(),
                    r@.len() == before.len(),
                    forall|k: int| 0 <= k < r@.len() ==> (#[trigger] r@[k]).0@ == before[k],
                    found == exists|k: int| 0 <= k < j && before[k] == d@,
                decreases r@.len() - j,
            {
                if same_text(r[j].0.as_str(), d.as_str()) {
                    found = true;
                }
                j = j + 1;
            }
            proof {
                if before.contains(d@) {
                    let k = choose|k: int| 0 <= k < before.len() && before[k] == d@;
                    assert(found);
                }
                if found {
                    assert(before.contains(d@));
                }
            }
            if !found {
                let items = self.copies_in_game(d.as_str());
                r.push((d.clone(), items));
            }
            i = i + 1;
        }
        proof {
            assert(self.mods@.subrange(0, self.mods@.len() as int) =~= self.mods@);
        }
        r
    }
}

impl Cacheable for EndorsementList {
    open spec fn key_view(&self) -> Seq<char> {
        "endorsements"@
    }

    open spec fn etag_view(&self) -> Seq<char> {
        self.etag@
    }

    open spec fn same_except_etag(&self, other: &Self) -> bool {
        *self == (EndorsementList { etag: self.etag, ..*other })
    }

    open spec fn merged(cached: Self, fetched: Self) -> Self {
        fetched
    }

    open spec fn bucket_view() -> Seq<char> {
        "endorsements"@
    }

    fn bucket_name() -> (r: &'static str) {
        "endorsements"
    }

    fn key_string(&self) -> (r: String) {
        String::from_str(EndorsementList::listkey())
    }

    fn etag(&self) -> (r: &str) {
        self.etag.as_str()
    }

    fn set_etag(&mut self, etag: &str) {
        self.etag = String::from_str(etag);
    }

    fn update(self, fetched: Self) -> (r: Self) {
        fetched
    }
}

/// The service's answer to an endorse or abstain request.
#[derive(Debug)]
pub struct EndorseResponse {
    pub message: String,
    pub status: EndorsementStatus,
}

/// The service's answer to a track or untrack request.
#[derive(Debug)]
pub struct TrackingResponse {
    pub message: String,
}

} // verus!
