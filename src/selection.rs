//! Choices the commands make over cached data: which mods concern the user,
//! what to untrack, how far to fill the cache.
use vstd::prelude::*;

use crate::modinfo::{ModInfoFull, ModStatus};
use crate::sorting::{mods_in_order, SortByKey, SortKey};
use crate::tracking::ModReference;

verus! {

/// The ids of the given mod references, in order.
pub fn reference_ids(refs: &Vec<&ModReference>) -> (r: Vec<u32>)
    ensures
        r@ == refs@.map_values(|m: &ModReference| m.mod_id),
{
    let mut r: Vec<u32> = Vec::new();
    let mut i: usize = 0;
    while i < refs.len()
        invariant
            i <= refs@.len(),
            r@ == refs@.subrange(0, i as int).map_values(|m: &ModReference| m.mod_id),
        decreases refs@.len() - i,
    {
        r.push(refs[i].mod_id);
        proof {
            assert(r@ =~= refs@.subrange(0, i + 1).map_values(|m: &ModReference| m.mod_id));
        }
        i = i + 1;
    }
    proof {
        assert(refs@.subrange(0, refs@.len() as int) =~= refs@);
    }
    r
}

fn contains_id(ids: &Vec<u32>, id: u32) -> (r: bool)
    ensures
        r == ids@.contains(id),
{
    let mut i: usize = 0;
    while i < ids.len()
        invariant
            i <= ids@.len(),
            forall|k: int| 0 <= k < i ==> ids@[k] != id,
        decreases ids@.len() - i,
    {
        if ids[i] == id {
            return true;
        }
        i = i + 1;
    }
    false
}

pub open spec fn id_in(ids: Seq<u32>) -> spec_fn(ModInfoFull) -> bool {
    |m: ModInfoFull| ids.contains(m.mod_id)
}

/// The mods whose id is among `following`, in their order.
pub fn retain_following(mods: Vec<ModInfoFull>, following: &Vec<u32>) -> (r: Vec<ModInfoFull>)
    ensures
        r@ == mods@.filter(id_in(following@)),
{
    let ghost orig = mods@;
    let mut rest = mods;
    let mut r: Vec<ModInfoFull> = Vec::new();
    let n = rest.len();
    let mut i: usize = 0;
    while i < n
        invariant
            n == orig.len(),
            i <= n,
            rest@ == orig.subrange(i as int, n as int),
            r@ == orig.subrange(0, i as int).filter(id_in(following@)),
        decreases n - i,
    {
        let m = rest.remove(0);
        proof {
            reveal(Seq::filter);
            assert(orig.subrange(0, i + 1).drop_last() =~= orig.subrange(0, i as int));
            assert(m == orig[i as int]);
            assert(rest@ =~= orig.subrange(i + 1, n as int));
        }
        if contains_id(following, m.mod_id) {
            r.push(m);
        }
        proof {
            assert(r@ =~= orig.subrange(0, i + 1).filter(id_in(following@)));
        }
        i = i + 1;
    }
    proof {
        assert(orig.subrange(0, n as int) =~= orig);
    }
    r
}

/// The ids, in order, of the removed mods that are still tracked: the ones to
/// untrack, and no others, so no call is spent on an untracked mod.
pub fn untrack_candidates(removed: &Vec<ModInfoFull>, following: &Vec<u32>) -> (r: Vec<u32>)
    ensures
        r@ == removed@.filter(id_in(following@)).map_values(|m: ModInfoFull| m.mod_id),
{
    let mut r: Vec<u32> = Vec::new();
    let mut i: usize = 0;
    while i < removed.len()
        invariant
            i <= removed@.len(),
            r@ == removed@.subrange(0, i as int).filter(id_in(following@)).map_values(|m: ModInfoFull| m.mod_id),
        decreases removed@.len() - i,
    {
        proof {
            reveal(Seq::filter);
            assert(removed@.subrange(0, i + 1).drop_last() =~= removed@.subrange(0, i as int));
        }
        if contains_id(following, removed[i].mod_id) {
            r.push(removed[i].mod_id);
        }
        proof {
            assert(r@ =~= removed@.subrange(0, i + 1).filter(id_in(following@)).map_values(
                |m: ModInfoFull| m.mod_id,
            ));
        }
        i = i + 1;
    }
    proof {
        assert(removed@.subrange(0, removed@.len() as int) =~= removed@);
    }
    r
}

/// A pass over the tracked mods of a game that caches the uncached ones, up
/// to a number of fetches. Every mod up to the one that reaches the limit is
/// looked at; a mod found in the cache costs nothing.
#[derive(Clone, Copy, Debug, PartialEq, Eq, Structural)]
pub struct PopulateRun {
    pub limit: u16,
    pub fetches: u16,
}

impl PopulateRun {
    pub fn new(limit: u16) -> (r: PopulateRun)
        ensures
            r == (PopulateRun { limit, fetches: 0 }),
    {
        PopulateRun { limit, fetches: 0 }
    }

    /// Whether a mod must be fetched: only when it is not cached yet.
    pub fn needs_fetch(&self, cached: bool) -> (r: bool)
        ensures
            r == !cached,
    {
        !cached
    }

    /// Counts a mod that was fetched and stored, and says whether to go on
    /// to the next mod.
    pub fn after_item(&mut self, stored: bool) -> (r: bool)
        ensures
            final(self).limit == old(self).limit,
            final(self).fetches == if stored && old(self).fetches < u16::MAX {
                (old(self).fetches + 1) as u16
            } else {
                old(self).fetches
            },
            r == (final(self).fetches < final(self).limit),
    {
        if stored && self.fetches < u16::MAX {
            self.fetches = self.fetches + 1;
        }
        self.fetches < self.limit
    }
}

/// The tracked mods of one game, sorted for showing: per category the mods
/// that are listed, and aside those wastebinned, removed or under moderation;
/// plus how many tracked mods are not cached.
#[derive(Debug)]
pub struct TrackedReport {
    pub uncached: usize,
    pub wasted: Vec<ModInfoFull>,
    pub removed: Vec<ModInfoFull>,
    pub moderated: Vec<ModInfoFull>,
    pub by_category: Vec<(u16, Vec<ModInfoFull>)>,
}

/// Whether a mod is shown under its category rather than set aside.
pub open spec fn listed_in_category(m: ModInfoFull) -> bool {
    m.status != ModStatus::Wastebinned && m.status != ModStatus::Removed && m.status
        != ModStatus::UnderModeration
}

pub open spec fn cached_mods(found: Seq<Option<ModInfoFull>>) -> Seq<ModInfoFull>
    decreases found.len(),
{
    if found.len() == 0 {
        Seq::empty()
    } else {
        let rest = cached_mods(found.drop_last());
        match found.last() {
            Some(m) => rest.push(m),
            None => rest,
        }
    }
}

pub open spec fn uncached_count(found: Seq<Option<ModInfoFull>>) -> nat
    decreases found.len(),
{
    if found.len() == 0 {
        0
    } else {
        uncached_count(found.drop_last()) + if found.last() is None {
            1nat
        } else {
            0nat
        }
    }
}

pub open spec fn with_status(s: ModStatus) -> spec_fn(ModInfoFull) -> bool {
    |m: ModInfoFull| m.status == s
}

pub open spec fn in_category(c: u16) -> spec_fn(ModInfoFull) -> bool {
    |m: ModInfoFull| listed_in_category(m) && m.category_id == c
}

/// Whether some mod of `ms` is listed under category `c`.
pub open spec fn has_listed_in(ms: Seq<ModInfoFull>, c: u16) -> bool {
    exists|i: int| 0 <= i < ms.len() && listed_in_category(#[trigger] ms[i]) && ms[i].category_id == c
}

pub open spec fn strictly_increasing(v: Seq<u16>) -> bool {
    forall|a: int, b: int| 0 <= a < b < v.len() ==> v[a] < v[b]
}

fn split_cached(found: Vec<Option<ModInfoFull>>) -> (r: (Vec<ModInfoFull>, usize))
    ensures
        r.0@ == cached_mods(found@),
        r.1 == uncached_count(found@),
{
    let ghost orig = found@;
    let mut rest = found;
    let n = rest.len();
    let mut uncached: usize = 0;
    let mut cached: Vec<ModInfoFull> = Vec::new();
    let mut i: usize = 0;
    while i < n
        invariant
            n == orig.len(),
            i <= n,
            rest@ == orig.subrange(i as int, n as int),
            uncached == uncached_count(orig.subrange(0, i as int)),
            uncached <= i,
            cached@ == cached_mods(orig.subrange(0, i as int)),
        decreases n - i,
    {
        let item = rest.remove(0);
        proof {
            assert(orig.subrange(0, i + 1).drop_last() =~= orig.subrange(0, i as int));
            assert(item == orig[i as int]);
            assert(rest@ =~= orig.subrange(i + 1, n as int));
        }
        match item {
            None => {
                uncached = uncached + 1;
            },
            Some(m) => {
                cached.push(m);
            },
        }
        i = i + 1;
    }
    proof {
        assert(orig.subrange(0, n as int) =~= orig);
    }
    (cached, uncached)
}

fn copies_with_status(ms: &Vec<ModInfoFull>, s: ModStatus) -> (r: Vec<ModInfoFull>)
    ensures
        r@ == ms@.filter(with_status(s)),
{
    let mut r: Vec<ModInfoFull> = Vec::new();
    let mut i: usize = 0;
    while i < ms.len()
        invariant
            i <= ms@.len(),
            r@ == ms@.subrange(0, i as int).filter(with_status(s)),
        decreases ms@.len() - i,
    {
        proof {
            reveal(Seq::filter);
            assert(ms@.subrange(0, i + 1).drop_last() =~= ms@.subrange(0, i as int));
        }
        if ms[i].status == s {
            r.push(ms[i].clone());
        }
        proof {
            assert(r@ =~= ms@.subrange(0, i + 1).filter(with_status(s)));
        }
        i = i + 1;
    }
    proof {
        assert(ms@.subrange(0, ms@.len() as int) =~= ms@);
    }
    r
}

fn copies_in_category(ms: &Vec<ModInfoFull>, c: u16) -> (r: Vec<ModInfoFull>)
    ensures
        r@ == ms@.filter(in_category(c)),
{
    let mut r: Vec<ModInfoFull> = Vec::new();
    let mut i: usize = 0;
    while i < ms.len()
        invariant
            i <= ms@.len(),
            r@ == ms@.subrange(0, i as int).filter(in_category(c)),
        decreases ms@.len() - i,
    {
        proof {
            reveal(Seq::filter);
            assert(ms@.subrange(0, i + 1).drop_last() =~= ms@.subrange(0, i as int));
        }
        let st = ms[i].status;
        if st != ModStatus::Wastebinned && st != ModStatus::Removed && st != ModStatus::UnderModeration
            && ms[i].category_id == c {
            r.push(ms[i].clone());
        }
        proof {
            assert(r@ =~= ms@.subrange(0, i + 1).filter(in_category(c)));
        }
        i = i + 1;
    }
    proof {
        assert(ms@.subrange(0, ms@.len() as int) =~= ms@);
    }
    r
}

/// Inserting `c` at a place where everything before is smaller and everything
/// after is larger keeps a list strictly increasing.
proof fn lemma_insert_in_order(before: Seq<u16>, i: int, c: u16)
    requires
        strictly_increasing(before),
        0 <= i <= before.len(),
        forall|k: int| 0 <= k < i ==> before[k] < c,
        i < before.len() ==> before[i] > c,
    ensures
        strictly_increasing(before.insert(i, c)),
{
    let v = before.insert(i, c);
    assert forall|a: int, b: int| 0 <= a < b < v.len() implies v[a] < v[b] by {
        if b < i {
            assert(v[a] == before[a] && v[b] == before[b]);
        } else if b == i {
            assert(v[a] == before[a]);
        } else if a < i {
            assert(v[a] == before[a] && v[b] == before[b - 1]);
            if b - 1 > i {
                assert(before[i] < before[b - 1]);
            }
        } else if a == i {
            assert(v[b] == before[b - 1]);
            if b - 1 > i {
                assert(before[i] < before[b - 1]);
            }
        } else {
            assert(v[a] == before[a - 1] && v[b] == before[b - 1]);
        }
    }
}

/// After an insertion a list holds the old values and the new one.
proof fn lemma_insert_member(before: Seq<u16>, i: int, c: u16, x: u16)
    requires
        0 <= i <= before.len(),
    ensures
        before.insert(i, c).contains(x) <==> (before.contains(x) || x == c),
{
    let v = before.insert(i, c);
    if v.contains(x) {
        let k = choose|k: int| 0 <= k < v.len() && v[k] == x;
        if k < i {
            assert(before[k] == x);
        } else if k > i {
            assert(before[k - 1] == x);
        }
    }
    if before.contains(x) {
        let k = choose|k: int| 0 <= k < before.len() && before[k] == x;
        if k < i {
            assert(v[k] == x);
        } else {
            assert(v[k + 1] == x);
        }
    }
    if x == c {
        assert(v[i] == c);
    }
}

/// Adds `c` to a strictly increasing list, keeping it so.
fn insert_sorted(v: &mut Vec<u16>, c: u16)
    requires
        strictly_increasing(old(v)@),
    ensures
        strictly_increasing(final(v)@),
        forall|x: u16| #[trigger] final(v)@.contains(x) <==> (old(v)@.contains(x) || x == c),
{
    let ghost before = v@;
    let mut i: usize = 0;
    while i < v.len() && v[i] < c
        invariant
            v@ == before,
            i <= v@.len(),
            forall|k: int| 0 <= k < i ==> v@[k] < c,
        decreases v@.len() - i,
    {
        i = i + 1;
    }
    if !(i < v.len() && v[i] == c) {
        v.insert(i, c);
        proof {
            lemma_insert_in_order(before, i as int, c);
        }
    }
    proof {
        assert forall|x: u16| #[trigger] v@.contains(x) <==> (before.contains(x) || x == c) by {
            if v@ == before {
                if x == c {
                    assert(v@[i as int] == c);
                }
            } else {
                lemma_insert_member(before, i as int, c, x);
            }
        }
    }
}

/// The category ids under which some mod of `ms` is listed, in increasing order.
fn categories_of(ms: &Vec<ModInfoFull>) -> (r: Vec<u16>)
    ensures
        strictly_increasing(r@),
        forall|c: u16| r@.contains(c) <==> has_listed_in(ms@, c),
{
    let mut r: Vec<u16> = Vec::new();
    let mut i: usize = 0;
    while i < ms.len()
        invariant
            i <= ms@.len(),
            strictly_increasing(r@),
            forall|c: u16| r@.contains(c) <==> has_listed_in(ms@.subrange(0, i as int), c),
        decreases ms@.len() - i,
    {
        let st = ms[i].status;
        let listed = st != ModStatus::Wastebinned && st != ModStatus::Removed && st
            != ModStatus::UnderModeration;
        let ghost before = r@;
        if listed {
            insert_sorted(&mut r, ms[i].category_id);
        }
        proof {
            let sub = ms@.subrange(0, i as int);
            let next = ms@.subrange(0, i + 1);
            assert forall|c: u16| r@.contains(c) <==> has_listed_in(next, c) by {
                if has_listed_in(sub, c) {
                    let k = choose|k: int|
                        0 <= k < sub.len() && listed_in_category(#[trigger] sub[k]) && sub[k].category_id == c;
                    assert(next[k] == sub[k]);
                }
                if has_listed_in(next, c) {
                    let k = choose|k: int|
                        0 <= k < next.len() && listed_in_category(#[trigger] next[k]) && next[k].category_id
                            == c;
                    if k < i {
                        assert(sub[k] == next[k]);
                    } else {
                        assert(next[k] == ms@[i as int]);
                    }
                }
                if listed && c == ms@[i as int].category_id {
                    assert(next[i as int] == ms@[i as int]);
                }
            }
        }
        i = i + 1;
    }
    proof {
        assert(ms@.subrange(0, ms@.len() as int) =~= ms@);
    }
    r
}

/// Whether `groups` holds, by increasing category id, each category under
/// which some mod of `ms` is listed, with those mods ordered by id.
pub open spec fn grouped_by_category(groups: Seq<(u16, Vec<ModInfoFull>)>, ms: Seq<ModInfoFull>) -> bool {
    &&& forall|a: int, b: int| 0 <= a < b < groups.len() ==> (#[trigger] groups[a]).0 < (#[trigger] groups[b]).0
    &&& forall|c: u16| has_listed_in(ms, c) <==> exists|k: int| 0 <= k < groups.len() && (#[trigger] groups[k]).0 == c
    &&& forall|k: int|
        0 <= k < groups.len() ==> {
            &&& (#[trigger] groups[k]).1@.to_multiset() == ms.filter(in_category(groups[k].0)).to_multiset()
            &&& mods_in_order(groups[k].1@, SortKey::Id)
        }
}

#[verifier::rlimit(30)]
fn group_by_category(cached: &Vec<ModInfoFull>) -> (r: Vec<(u16, Vec<ModInfoFull>)>)
    ensures
        grouped_by_category(r@, cached@),
{
    let cats = categories_of(cached);
    let mut groups: Vec<(u16, Vec<ModInfoFull>)> = Vec::new();
    let mut i: usize = 0;
    while i < cats.len()
        invariant
            i <= cats@.len(),
            strictly_increasing(cats@),
            forall|c: u16| cats@.contains(c) <==> has_listed_in(cached@, c),
            groups@.len() == i,
            forall|k: int| 0 <= k < i ==> (#[trigger] groups@[k]).0 == cats@[k],
            forall|k: int|
                0 <= k < i ==> {
                    &&& (#[trigger] groups@[k]).1@.to_multiset() == cached@.filter(
                        in_category(groups@[k].0),
                    ).to_multiset()
                    &&& mods_in_order(groups@[k].1@, SortKey::Id)
                },
        decreases cats@.len() - i,
    {
        let c = cats[i];
        let mut members = copies_in_category(cached, c);
        members.sort(&SortKey::Id);
        groups.push((c, members));
        i = i + 1;
    }
    proof {
        assert forall|c: u16| has_listed_in(cached@, c) <==> exists|k: int|
            0 <= k < groups@.len() && (#[trigger] groups@[k]).0 == c by {
            if has_listed_in(cached@, c) {
                assert(cats@.contains(c));
                let k = choose|k: int| 0 <= k < cats@.len() && cats@[k] == c;
                assert(groups@[k].0 == c);
            }
            if exists|k: int| 0 <= k < groups@.len() && (#[trigger] groups@[k]).0 == c {
                let k = choose|k: int| 0 <= k < groups@.len() && (#[trigger] groups@[k]).0 == c;
                assert(cats@[k] == c);
                assert(cats@.contains(c));
            }
        }
        assert forall|a: int, b: int| 0 <= a < b < groups@.len() implies (#[trigger] groups@[a]).0 < (
        #[trigger] groups@[b]).0 by {
            assert(groups@[a].0 == cats@[a] && groups@[b].0 == cats@[b]);
        }
    }
    groups
}

/// Sorts the lookup results of a game's tracked mods (`None`: not cached)
/// into a report: the listed mods by category, categories by id and mods by
/// id within each; the mods set aside in lookup order.
pub fn tracked_report(found: Vec<Option<ModInfoFull>>) -> (r: TrackedReport)
    ensures
        r.uncached == uncached_count(found@),
        r.wasted@ == cached_mods(found@).filter(with_status(ModStatus::Wastebinned)),
        r.removed@ == cached_mods(found@).filter(with_status(ModStatus::Removed)),
        r.moderated@ == cached_mods(found@).filter(with_status(ModStatus::UnderModeration)),
        grouped_by_category(r.by_category@, cached_mods(found@)),
{
    let (cached, uncached) = split_cached(found);
    let wasted = copies_with_status(&cached, ModStatus::Wastebinned);
    let removed = copies_with_status(&cached, ModStatus::Removed);
    let moderated = copies_with_status(&cached, ModStatus::UnderModeration);
    let by_category = group_by_category(&cached);
    TrackedReport { uncached, wasted, removed, moderated, by_category }
}

} // verus!
