//! Orders in which lists of mods are shown.
use vstd::prelude::*;

use crate::modinfo::ModInfoFull;

verus! {

/// Whether unicase orders text `a` no later than text `b` (case-insensitive
/// comparison of the case-folded texts).
pub uninterp spec fn unicase_le(a: Seq<char>, b: Seq<char>) -> bool;

/// The field that a list of mods is sorted by.
#[derive(Clone, Copy, Debug, PartialEq, Eq, Structural)]
pub enum SortKey {
    Id,
    Name,
    Date,
    Author,
}

impl SortKey {
    /// Reads a sort key by its name, in any letter case; anything else is `Id`.
    pub fn parse(input: &str) -> (r: SortKey)
        ensures
            r == sort_key_named(input@),
    {
        if crate::text::same_text_ignoring_ascii_case(input, "name") {
            SortKey::Name
        } else if crate::text::same_text_ignoring_ascii_case(input, "date") {
            SortKey::Date
        } else if crate::text::same_text_ignoring_ascii_case(input, "author") {
            SortKey::Author
        } else {
            SortKey::Id
        }
    }
}

pub open spec fn sort_key_named(s: Seq<char>) -> SortKey {
    if crate::text::equal_ignoring_ascii_case(s, "name"@) {
        SortKey::Name
    } else if crate::text::equal_ignoring_ascii_case(s, "date"@) {
        SortKey::Date
    } else if crate::text::equal_ignoring_ascii_case(s, "author"@) {
        SortKey::Author
    } else {
        SortKey::Id
    }
}

/// Whether consecutive mods of `v` stand in the order that `key` asks for.
pub open spec fn mods_in_order(v: Seq<ModInfoFull>, key: SortKey) -> bool {
    forall|i: int|
        0 <= i < v.len() - 1 ==> match key {
            SortKey::Id => (#[trigger] v[i]).mod_id <= v[i + 1].mod_id,
            SortKey::Date => (#[trigger] v[i]).updated_timestamp <= v[i + 1].updated_timestamp,
            SortKey::Name => unicase_le((#[trigger] v[i]).name@, v[i + 1].name@),
            SortKey::Author => unicase_le((#[trigger] v[i]).uploaded_by@, v[i + 1].uploaded_by@),
        }
}

/// Whether `a` and `b` have equal keys under `key` (for the names: neither
/// comes before the other in unicase's order).
pub open spec fn same_key(a: ModInfoFull, b: ModInfoFull, key: SortKey) -> bool {
    match key {
        SortKey::Id => a.mod_id == b.mod_id,
        SortKey::Date => a.updated_timestamp == b.updated_timestamp,
        SortKey::Name => unicase_le(a.name@, b.name@) && unicase_le(b.name@, a.name@),
        SortKey::Author => unicase_le(a.uploaded_by@, b.uploaded_by@) && unicase_le(
            b.uploaded_by@,
            a.uploaded_by@,
        ),
    }
}

pub open spec fn key_like(m: ModInfoFull, key: SortKey) -> spec_fn(ModInfoFull) -> bool {
    |x: ModInfoFull| same_key(x, m, key)
}

/// Whether, for every key value, the mods of `v` with that key stand in the
/// same order as in `w` (what a stable sort keeps).
#[verifier::opaque]
pub open spec fn ties_kept(v: Seq<ModInfoFull>, w: Seq<ModInfoFull>, key: SortKey) -> bool {
    forall|m: ModInfoFull| #[trigger] v.filter(key_like(m, key)) == w.filter(key_like(m, key))
}

/// Relies on `slice::sort_by_key`: a stable sort by the given key, here the mod id.
#[verifier::external_body]
fn sort_mods_by_id(v: &mut Vec<ModInfoFull>)
    ensures
        final(v)@.to_multiset() == old(v)@.to_multiset(),
        mods_in_order(final(v)@, SortKey::Id),
        ties_kept(final(v)@, old(v)@, SortKey::Id),
{
    v.sort_by_key(|m| m.mod_id)
}

/// Relies on `slice::sort_by_key`: a stable sort by the given key, here the
/// time of the last update.
#[verifier::external_body]
fn sort_mods_by_date(v: &mut Vec<ModInfoFull>)
    ensures
        final(v)@.to_multiset() == old(v)@.to_multiset(),
        mods_in_order(final(v)@, SortKey::Date),
        ties_kept(final(v)@, old(v)@, SortKey::Date),
{
    v.sort_by_key(|m| m.updated_timestamp)
}

/// Relies on `slice::sort_by_key` with unicase's `UniCase` ordering of the
/// mod names.
#[verifier::external_body]
fn sort_mods_by_name(v: &mut Vec<ModInfoFull>)
    ensures
        final(v)@.to_multiset() == old(v)@.to_multiset(),
        forall|i: int|
            0 <= i < final(v)@.len() - 1 ==> unicase_le(
                (#[trigger] final(v)@[i]).name@,
                final(v)@[i + 1].name@,
            ),
        ties_kept(final(v)@, old(v)@, SortKey::Name),
{
    v.sort_by_key(|m| unicase::UniCase::new(m.name.clone()))
}

/// Relies on `slice::sort_by_key` with unicase's `UniCase` ordering of the
/// uploaders' names.
#[verifier::external_body]
fn sort_mods_by_uploader(v: &mut Vec<ModInfoFull>)
    ensures
        final(v)@.to_multiset() == old(v)@.to_multiset(),
        forall|i: int|
            0 <= i < final(v)@.len() - 1 ==> unicase_le(
                (#[trigger] final(v)@[i]).uploaded_by@,
                final(v)@[i + 1].uploaded_by@,
            ),
        ties_kept(final(v)@, old(v)@, SortKey::Author),
{
    v.sort_by_key(|m| unicase::UniCase::new(m.uploaded_by.clone()))
}

/// A list that can be put in the order a `SortKey` names.
pub trait SortByKey: Sized {
    spec fn in_order(&self, key: SortKey) -> bool;

    spec fn same_items(&self, other: &Self) -> bool;

    /// Whether items with equal keys stand in the same order in both lists.
    spec fn keeps_ties(&self, other: &Self, key: SortKey) -> bool;

    /// Sorts stably: items with equal keys keep their order.
    fn sort(&mut self, key: &SortKey)
        ensures
            final(self).in_order(*key),
            final(self).same_items(old(self)),
            final(self).keeps_ties(old(self), *key),
    ;
}

impl SortByKey for Vec<ModInfoFull> {
    open spec fn in_order(&self, key: SortKey) -> bool {
        mods_in_order(self@, key)
    }

    open spec fn same_items(&self, other: &Self) -> bool {
        self@.to_multiset() == other@.to_multiset()
    }

    open spec fn keeps_ties(&self, other: &Self, key: SortKey) -> bool {
        ties_kept(self@, other@, key)
    }

    fn sort(&mut self, key: &SortKey) {
        match key {
            SortKey::Id => sort_mods_by_id(self),
            SortKey::Name => sort_mods_by_name(self),
            SortKey::Date => sort_mods_by_date(self),
            SortKey::Author => sort_mods_by_uploader(self),
        }
    }
}

} // verus!
