//! The list of mods the user tracks, across all games.
use vstd::prelude::*;

use crate::cache::Cacheable;
use crate::text::same_text;

verus! {

/// Each distinct text of `ds`, in the order of its first appearance.
pub open spec fn first_appearance(ds: Seq<Seq<char>>) -> Seq<Seq<char>>
    decreases ds.len(),
{
    if ds.len() == 0 {
        Seq::empty()
    } else {
        let p = first_appearance(ds.drop_last());
        if p.contains(ds.last()) {
            p
        } else {
            p.push(ds.last())
        }
    }
}

/// A mod named by its game and id.
#[derive(Debug)]
pub struct ModReference {
    pub domain_name: String,
    pub mod_id: u32,
}

impl Clone for ModReference {
    fn clone(&self) -> (r: Self)
        ensures
            r == *self,
    {
        ModReference { domain_name: self.domain_name.clone(), mod_id: self.mod_id }
    }
}

/// The tracked mods, as the service lists them, with the list's ETag.
#[derive(Debug, Clone)]
pub struct TrackedList {
    pub mods: Vec<ModReference>,
    pub etag: String,
}

pub open spec fn ref_domains(mods: Seq<ModReference>) -> Seq<Seq<char>> {
    mods.map_values(|m: ModReference| m.domain_name@)
}

pub open spec fn ref_in_game(g: Seq<char>) -> spec_fn(ModReference) -> bool {
    |m: ModReference| m.domain_name@ == g
}

/// The ids of the mods of game `g`, in list order.
pub open spec fn ref_ids_in_game(mods: Seq<ModReference>, g: Seq<char>) -> Seq<u32> {
    mods.filter(ref_in_game(g)).map_values(|m: ModReference| m.mod_id)
}

impl TrackedList {
    /// The storage key of the tracked list.
    pub fn listkey() -> (r: &'static str)
        ensures
            r@ == "tracked"@,
    {
        "tracked"
    }

    /// The tracked mods of one game, in list order.
    pub fn by_game(&self, game: &str) -> (r: Vec<&ModReference>)
        ensures
            r@.map_values(|m: &ModReference| *m) == self.mods@.filter(ref_in_game(game@)),
    {
        let mut r: Vec<&ModReference> = Vec::new();
        let mut i: usize = 0;
        while i < self.mods.len()
            invariant
                i <= self.mods@.len(),
                r@.map_values(|m: &ModReference| *m) == self.mods@.subrange(0, i as int).filter(ref_in_game(game@)),
            decreases self.mods@.len() - i,
        {
            let m = &self.mods[i];
            proof {
                reveal(Seq::filter);
                assert(self.mods@.subrange(0, i + 1).drop_last() =~= self.mods@.subrange(0, i as int));
            }
            if same_text(m.domain_name.as_str(), game) {
                r.push(m);
            }
            proof {
                assert(r@.map_values(|m: &ModReference| *m) =~= self.mods@.subrange(0, i + 1).filter(
                    ref_in_game(game@),
                ));
            }
            i = i + 1;
        }
        proof {
            assert(self.mods@.subrange(0, self.mods@.len() as int) =~= self.mods@);
        }
        r
    }

    fn ids_in_game(&self, game: &str) -> (r: Vec<u32>)
        ensures
            r@ == ref_ids_in_game(self.mods@, game@),
    {
        let mut r: Vec<u32> = Vec::new();
        let mut i: usize = 0;
        while i < self.mods.len()
            invariant
                i <= self.mods@.len(),
                r@ == ref_ids_in_game(self.mods@.subrange(0, i as int), game@),
            decreases self.mods@.len() - i,
        {
            let m = &self.mods[i];
            proof {
                reveal(Seq::filter);
                assert(self.mods@.subrange(0, i + 1).drop_last() =~= self.mods@.subrange(0, i as int));
            }
            if same_text(m.domain_name.as_str(), game) {
                r.push(m.mod_id);
            }
            proof {
                assert(r@ =~= ref_ids_in_game(self.mods@.subrange(0, i + 1), game@));
            }
            i = i + 1;
        }
        proof {
            assert(self.mods@.subrange(0, self.mods@.len() as int) =~= self.mods@);
        }
        r
    }

    /// The tracked mod ids grouped by game: one entry per game, games in the
    /// order in which they first occur in the list, ids in list order.
    pub fn get_game_map(&self) -> (r: Vec<(String, Vec<u32>)>)
        ensures
            r@.len() == first_appearance(ref_domains(self.mods@)).len(),
            forall|k: int|
                0 <= k < r@.len() ==> {
                    &&& (#[trigger] r@[k]).0@ == first_appearance(ref_domains(self.mods@))[k]
                    &&& r@[k].1@ == ref_ids_in_game(self.mods@, r@[k].0@)
                },
    {
        let mut r: Vec<(String, Vec<u32>)> = Vec::new();
        let mut i: usize = 0;
        while i < self.mods.len()
            invariant
                i <= self.mods@.len(),
                r@.len() == first_appearance(ref_domains(self.mods@.subrange(0, i as int))).len(),
                forall|k: int|
                    0 <= k < r@.len() ==> {
                        &&& (#[trigger] r@[k]).0@ == first_appearance(ref_domains(self.mods@.subrange(0, i as int)))[k]
                        &&& r@[k].1@ == ref_ids_in_game(self.mods@, r@[k].0@)
                    },
            decreases self.mods@.len() - i,
        {
            let d = &self.mods[i].domain_name;
            let ghost before = first_appearance(ref_domains(self.mods@.subrange(0, i as int)));
            proof {
                assert(ref_domains(self.mods@.subrange(0, i + 1)) =~= ref_domains(
                    self.mods@.subrange(0, i as int),
                ).push(d@));
                assert(ref_domains(self.mods@.subrange(0, i + 1)).drop_last() =~= ref_domains(
                    self.mods@.subrange(0, i as int),
                ));
            }
            let mut found = false;
            let mut j: usize = 0;
            while j < r.len()
                invariant
                    j <= r@.len(),
                    r@.len() == before.len(),
                    forall|k: int| 0 <= k < r@.len() ==> (#[trigger] r@[k]).0@ == before[k],
                    found == exists|k: int| 0 <= k < j && before[k] == d@,
                decreases r@.len() - j,
            {
                if same_text(r[j].0.as_str(), d.as_str()) {
                    found = true;
                }
                j = j + 1;
            }
            proof {
                if before.contains(d@) {
                    let k = choose|k: int| 0 <= k < before.len() && before[k] == d@;
                    assert(found);
                }
                if found {
                    assert(before.contains(d@));
                }
            }
            if !found {
                let ids = self.ids_in_game(d.as_str());
                r.push((d.clone(), ids));
            }
            i = i + 1;
        }
        proof {
            assert(self.mods@.subrange(0, self.mods@.len() as int) =~= self.mods@);
        }
        r
    }
}

/// A bare list of mod references, as the service sends the tracked list.
#[derive(Debug)]
pub struct ModReferenceList {
    pub mods: Vec<ModReference>,
}

impl Cacheable for TrackedList {
    open spec fn key_view(&self) -> Seq<char> {
        "tracked"@
    }

    open spec fn etag_view(&self) -> Seq<char> {
        self.etag@
    }

    open spec fn same_except_etag(&self, other: &Self) -> bool {
        *self == (TrackedList { etag: self.etag, ..*other })
    }

    open spec fn merged(cached: Self, fetched: Self) -> Self {
        fetched
    }

    open spec fn bucket_view() -> Seq<char> {
        "mod_ref_lists"@
    }

    fn bucket_name() -> (r: &'static str) {
        "mod_ref_lists"
    }

    fn key_string(&self) -> (r: String) {
        String::from_str(TrackedList::listkey())
    }

    fn etag(&self) -> (r: &str) {
        self.etag.as_str()
    }

    fn set_etag(&mut self, etag: &str) {
        self.etag = String::from_str(etag);
    }

    fn update(self, fetched: Self) -> (r: Self) {
        fetched
    }
}

} // verus!
