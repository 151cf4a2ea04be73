//! A game's metadata, and the cached mods listed under it.
use vstd::prelude::*;

use crate::cache::{entries_view, lemma_prefix_scan_exact, list_by_prefix, prefix_scan, Cacheable};
use crate::key::{game_prefix, game_prefix_string, has_no_slash, key_text, lemma_key_has_game_prefix, lemma_other_game_not_prefixed};
use crate::modinfo::{ModInfoFull, ModStatus};
use crate::sorting::{mods_in_order, SortByKey, SortKey};

verus! {

/// A category of mods within a game.
#[derive(Debug)]
pub struct ModCategory {
    pub category_id: u16,
    pub name: String,
    /// The top-level category this one belongs to; `None` for a top-level one.
    pub parent_category: Option<u16>,
}

impl Clone for ModCategory {
    fn clone(&self) -> (r: Self)
        ensures
            r == *self,
    {
        ModCategory { category_id: self.category_id, name: self.name.clone(), parent_category: self.parent_category }
    }
}

impl ModCategory {
    pub fn name(&self) -> (r: &str)
        ensures
            r@ == self.name@,
    {
        self.name.as_str()
    }
}

/// What the service reports about one game, plus the ETag of the copy.
#[derive(Debug)]
pub struct GameMetadata {
    pub approved_date: u64,
    pub authors: u32,
    pub categories: Vec<ModCategory>,
    pub domain_name: String,
    pub downloads: u64,
    pub file_count: u32,
    pub file_endorsements: u32,
    pub file_views: u64,
    pub forum_url: String,
    pub genre: String,
    pub id: u32,
    pub mods: u32,
    pub name: String,
    pub nexusmods_url: String,
    pub etag: String,
}

/// Index of the last category of `cats` with id `id`, or -1.
pub open spec fn last_category_with(cats: Seq<ModCategory>, id: u16) -> int
    decreases cats.len(),
{
    if cats.len() == 0 {
        -1
    } else if cats.last().category_id == id {
        cats.len() - 1
    } else {
        last_category_with(cats.drop_last(), id)
    }
}

pub open spec fn has_status(s: ModStatus) -> spec_fn(ModInfoFull) -> bool {
    |m: ModInfoFull| m.status == s
}

/// The cached mods of game `domain`, among the scanned entries.
pub open spec fn game_mods(domain: Seq<char>, entries: Seq<(String, Option<ModInfoFull>)>) -> Seq<ModInfoFull> {
    prefix_scan(entries_view(entries), game_prefix(domain))
}

fn keep_status(v: Vec<ModInfoFull>, s: ModStatus) -> (r: Vec<ModInfoFull>)
    ensures
        r@ == v@.filter(has_status(s)),
{
    let ghost orig = v@;
    let mut rest = v;
    let mut r: Vec<ModInfoFull> = Vec::new();
    let n = rest.len();
    let mut i: usize = 0;
    while i < n
        invariant
            n == orig.len(),
            i <= n,
            rest@ == orig.subrange(i as int, n as int),
            r@ == orig.subrange(0, i as int).filter(has_status(s)),
        decreases n - i,
    {
        let m = rest.remove(0);
        proof {
            reveal(Seq::filter);
            assert(orig.subrange(0, i + 1).drop_last() =~= orig.subrange(0, i as int));
            assert(m == orig[i as int]);
            assert(rest@ =~= orig.subrange(i + 1, n as int));
        }
        if m.status == s {
            r.push(m);
        }
        proof {
            assert(r@ =~= orig.subrange(0, i + 1).filter(has_status(s)));
        }
        i = i + 1;
    }
    proof {
        assert(orig.subrange(0, n as int) =~= orig);
    }
    r
}

impl GameMetadata {
    pub fn name(&self) -> (r: String)
        ensures
            r@ == self.name@,
    {
        self.name.clone()
    }

    pub fn categories(&self) -> (r: &Vec<ModCategory>)
        ensures
            r@ == self.categories@,
    {
        &self.categories
    }

    /// The category with id `id`; where several share it, the last one listed.
    pub fn category_from_id(&self, id: u16) -> (r: Option<ModCategory>)
        ensures
            last_category_with(self.categories@, id) == -1 ==> r is None,
            last_category_with(self.categories@, id) >= 0 ==> r == Some(
                self.categories@[last_category_with(self.categories@, id)],
            ),
    {
        let mut i: usize = self.categories.len();
        proof {
            assert(self.categories@.subrange(0, i as int) =~= self.categories@);
        }
        while i > 0
            invariant
                i <= self.categories@.len(),
                last_category_with(self.categories@, id) == last_category_with(
                    self.categories@.subrange(0, i as int),
                    id,
                ),
            decreases i,
        {
            proof {
                assert(self.categories@.subrange(0, i as int).drop_last() =~= self.categories@.subrange(
                    0,
                    i - 1,
                ));
                assert(self.categories@.subrange(0, i as int).last() == self.categories@[i - 1]);
            }
            if self.categories[i - 1].category_id == id {
                return Some(self.categories[i - 1].clone());
            }
            i = i - 1;
        }
        None
    }

    /// This game's cached mods among the entries of a scan of the mods bucket,
    /// ordered by name without regard to letter case.
    pub fn mods(&self, entries: Vec<(String, Option<ModInfoFull>)>) -> (r: Vec<ModInfoFull>)
        ensures
            r@.to_multiset() == game_mods(self.domain_name@, entries@).to_multiset(),
            mods_in_order(r@, SortKey::Name),
    {
        let prefix = game_prefix_string(self.domain_name.as_str());
        let mut r = list_by_prefix(entries, prefix.as_str());
        r.sort(&SortKey::Name);
        r
    }

    fn mods_in_status(&self, entries: Vec<(String, Option<ModInfoFull>)>, s: ModStatus) -> (r: Vec<ModInfoFull>)
        ensures
            r@.to_multiset() == game_mods(self.domain_name@, entries@).filter(has_status(s)).to_multiset(),
            mods_in_order(r@, SortKey::Id),
    {
        let prefix = game_prefix_string(self.domain_name.as_str());
        let all = list_by_prefix(entries, prefix.as_str());
        let mut r = keep_status(all, s);
        r.sort(&SortKey::Id);
        r
    }

    /// This game's cached mods that are hidden, by id.
    pub fn mods_hidden(&self, entries: Vec<(String, Option<ModInfoFull>)>) -> (r: Vec<ModInfoFull>)
        ensures
            r@.to_multiset() == game_mods(self.domain_name@, entries@).filter(
                has_status(ModStatus::Hidden),
            ).to_multiset(),
            mods_in_order(r@, SortKey::Id),
    {
        self.mods_in_status(entries, ModStatus::Hidden)
    }

    /// This game's cached mods that were removed, by id.
    pub fn mods_removed(&self, entries: Vec<(String, Option<ModInfoFull>)>) -> (r: Vec<ModInfoFull>)
        ensures
            r@.to_multiset() == game_mods(self.domain_name@, entries@).filter(
                has_status(ModStatus::Removed),
            ).to_multiset(),
            mods_in_order(r@, SortKey::Id),
    {
        self.mods_in_status(entries, ModStatus::Removed)
    }

    /// This game's cached mods that their authors wastebinned, by id.
    pub fn mods_wastebinned(&self, entries: Vec<(String, Option<ModInfoFull>)>) -> (r: Vec<ModInfoFull>)
        ensures
            r@.to_multiset() == game_mods(self.domain_name@, entries@).filter(
                has_status(ModStatus::Wastebinned),
            ).to_multiset(),
            mods_in_order(r@, SortKey::Id),
    {
        self.mods_in_status(entries, ModStatus::Wastebinned)
    }
}

impl Cacheable for GameMetadata {
    open spec fn key_view(&self) -> Seq<char> {
        self.domain_name@
    }

    open spec fn etag_view(&self) -> Seq<char> {
        self.etag@
    }

    open spec fn same_except_etag(&self, other: &Self) -> bool {
        *self == (GameMetadata { etag: self.etag, ..*other })
    }

    open spec fn merged(cached: Self, fetched: Self) -> Self {
        fetched
    }

    open spec fn bucket_view() -> Seq<char> {
        "games"@
    }

    fn bucket_name() -> (r: &'static str) {
        "games"
    }

    fn key_string(&self) -> (r: String) {
        self.domain_name.clone()
    }

    fn etag(&self) -> (r: &str) {
        self.etag.as_str()
    }

    fn set_etag(&mut self, etag: &str) {
        self.etag = String::from_str(etag);
    }

    fn update(self, fetched: Self) -> (r: Self) {
        fetched
    }
}

/// A scan of the mods bucket under one game's prefix yields exactly the
/// readable records stored for that game, and none stored for another game,
/// where every key is a compound key and no domain name holds a `/`.
/// Entry `j` was stored under game `domains[j]` and mod id `ids[j]`.
pub proof fn lemma_game_scan(
    entries: Seq<(Seq<char>, Option<ModInfoFull>)>,
    domains: Seq<Seq<char>>,
    ids: Seq<u32>,
    game: Seq<char>,
)
    requires
        entries.len() == domains.len(),
        entries.len() == ids.len(),
        forall|j: int| 0 <= j < entries.len() ==> (#[trigger] entries[j]).0 == key_text(domains[j], ids[j] as nat),
        forall|j: int| 0 <= j < domains.len() ==> has_no_slash(#[trigger] domains[j]),
        has_no_slash(game),
    ensures
        forall|i: int|
            0 <= i < prefix_scan(entries, game_prefix(game)).len() ==> exists|j: int|
                0 <= j < entries.len() && domains[j] == game && (#[trigger] entries[j]).1 == Some(
                    #[trigger] prefix_scan(entries, game_prefix(game))[i],
                ),
        forall|j: int|
            0 <= j < entries.len() && domains[j] == game && (#[trigger] entries[j]).1 is Some
                ==> prefix_scan(entries, game_prefix(game)).contains(entries[j].1->0),
{
    let out = prefix_scan(entries, game_prefix(game));
    lemma_prefix_scan_exact(entries, game_prefix(game));
    assert forall|i: int| 0 <= i < out.len() implies exists|j: int|
        0 <= j < entries.len() && domains[j] == game && (#[trigger] entries[j]).1 == Some(
            #[trigger] out[i],
        ) by {
        let j = choose|j: int|
            0 <= j < entries.len() && game_prefix(game).is_prefix_of(#[trigger] entries[j].0) && entries[j].1
                == Some(out[i]);
        if domains[j] != game {
            assert(has_no_slash(domains[j]));
            lemma_other_game_not_prefixed(game, domains[j], ids[j] as nat);
        }
    }
    assert forall|j: int|
        0 <= j < entries.len() && domains[j] == game && (#[trigger] entries[j]).1 is Some implies out.contains(
        entries[j].1->0) by {
        lemma_key_has_game_prefix(game, ids[j]);
    }
}

} // verus!
