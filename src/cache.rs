//! The read-through cache protocol shared by every cached entity.
//!
//! Looking an entity up goes: local lookup; on a miss, an unconditional fetch
//! whose result is stored; on a hit without refresh, the local copy and no
//! network call; on a hit with refresh, a conditional fetch with the local
//! ETag, where "not modified" returns the local copy without a write and a
//! fresh copy is merged into the local one, stored and returned.
//!
//! The lookups, fetches and writes are the caller's; the decisions between
//! them are `plan_get` and `settle_fetch`.
use vstd::prelude::*;

use crate::text::starts_with;

verus! {

/// An entity that lives in the cache under a key of its own.
pub trait Cacheable: Sized {
    /// The storage address of this entity within its bucket.
    spec fn key_view(&self) -> Seq<char>;

    /// The ETag of this copy; empty when it never came from the service.
    spec fn etag_view(&self) -> Seq<char>;

    /// Whether this copy and `other` agree in every field but the ETag.
    spec fn same_except_etag(&self, other: &Self) -> bool;

    /// What `update` makes of a cached copy and a freshly fetched one.
    spec fn merged(cached: Self, fetched: Self) -> Self;

    /// The name of the bucket that holds entities of this type.
    spec fn bucket_view() -> Seq<char>;

    fn bucket_name() -> (r: &'static str)
        ensures
            r@ == Self::bucket_view(),
    ;

    fn key_string(&self) -> (r: String)
        ensures
            r@ == self.key_view(),
    ;

    fn etag(&self) -> (r: &str)
        ensures
            r@ == self.etag_view(),
    ;

    fn set_etag(&mut self, etag: &str)
        ensures
            final(self).etag_view() == etag@,
            final(self).key_view() == old(self).key_view(),
            final(self).same_except_etag(&*old(self)),
    ;

    /// Combines the cached copy with a freshly fetched one before storing.
    fn update(self, fetched: Self) -> (r: Self)
        ensures
            r == Self::merged(self, fetched),
    ;
}

/// What to do after the local lookup.
#[derive(Debug)]
pub enum GetPlan<T> {
    /// Answer with the cached copy; no network call.
    Hit(T),
    /// Ask the service, conditionally when `etag` is given.
    Fetch { cached: Option<T>, etag: Option<String> },
}

/// What to do with the result of a fetch.
#[derive(Debug)]
pub enum Settled<T> {
    /// Answer with this; nothing is written.
    Keep(Option<T>),
    /// Store this under its own key, then answer with it.
    Write(T),
}

/// The plan that the protocol asks for, given the local lookup and `refresh`.
pub open spec fn plan_for<T: Cacheable>(p: GetPlan<T>, local: Option<T>, refresh: bool) -> bool {
    match local {
        None => p matches GetPlan::Fetch { cached: None, etag: None },
        Some(x) => if !refresh {
            p == GetPlan::Hit(x)
        } else {
            p matches GetPlan::Fetch { cached: Some(c), etag: Some(e) } && c == x && e@ == x.etag_view()
        },
    }
}

/// The settlement that the protocol asks for, given the cached copy (if the
/// lookup found one) and what the fetch returned (`None`: not found or not
/// modified).
pub open spec fn settlement<T: Cacheable>(cached: Option<T>, fetched: Option<T>) -> Settled<T> {
    match (cached, fetched) {
        (None, None) => Settled::Keep(None),
        (None, Some(f)) => Settled::Write(f),
        (Some(c), None) => Settled::Keep(Some(c)),
        (Some(c), Some(f)) => Settled::Write(T::merged(c, f)),
    }
}

/// The bucket's contents after a settlement is carried out.
pub open spec fn bucket_after<T: Cacheable>(bucket: Map<Seq<char>, T>, s: Settled<T>) -> Map<Seq<char>, T> {
    match s {
        Settled::Keep(_) => bucket,
        Settled::Write(v) => bucket.insert(v.key_view(), v),
    }
}

/// The answer the caller gets once a settlement is carried out.
pub open spec fn answer<T>(s: Settled<T>) -> Option<T> {
    match s {
        Settled::Keep(v) => v,
        Settled::Write(v) => Some(v),
    }
}

/// Decides, from the local lookup and `refresh`, whether to answer from the
/// cache or to ask the service, and with which ETag.
pub fn plan_get<T: Cacheable>(local: Option<T>, refresh: bool) -> (r: GetPlan<T>)
    ensures
        plan_for(r, local, refresh),
{
    match local {
        None => GetPlan::Fetch { cached: None, etag: None },
        Some(x) => {
            if refresh {
                let etag = String::from_str(x.etag());
                GetPlan::Fetch { cached: Some(x), etag: Some(etag) }
            } else {
                GetPlan::Hit(x)
            }
        },
    }
}

/// Decides what a fetch comes to: nothing fetched leaves the cached copy (or
/// nothing) unwritten; a fetched copy is stored, merged into the cached one
/// where there was one.
pub fn settle_fetch<T: Cacheable>(cached: Option<T>, fetched: Option<T>) -> (r: Settled<T>)
    ensures
        r == settlement(cached, fetched),
{
    match cached {
        None => match fetched {
            None => Settled::Keep(None),
            Some(f) => Settled::Write(f),
        },
        Some(c) => match fetched {
            None => Settled::Keep(Some(c)),
            Some(f) => Settled::Write(c.update(f)),
        },
    }
}

/// A cache hit without refresh is answered with the stored value unchanged,
/// and the plan holds no fetch.
pub proof fn lemma_hit_without_refresh<T: Cacheable>(p: GetPlan<T>, x: T)
    requires
        plan_for(p, Some(x), false),
    ensures
        p == GetPlan::Hit(x),
        !(p is Fetch),
{
}

/// On a miss the service is asked once, unconditionally; a fetched entity is
/// written under its own key, where a later lookup finds it with the fetched ETag.
pub proof fn lemma_miss_fetches_and_stores<T: Cacheable>(
    p: GetPlan<T>,
    refresh: bool,
    fetched: T,
    bucket: Map<Seq<char>, T>,
)
    requires
        plan_for(p, None, refresh),
    ensures
        p matches GetPlan::Fetch { cached: None, etag: None },
        settlement(None, Some(fetched)) == Settled::Write(fetched),
        bucket_after(bucket, settlement(None, Some(fetched))).contains_key(fetched.key_view()),
        bucket_after(bucket, settlement(None, Some(fetched)))[fetched.key_view()] == fetched,
        bucket_after(bucket, settlement(None, Some(fetched)))[fetched.key_view()].etag_view()
            == fetched.etag_view(),
        answer(settlement(None, Some(fetched))) == Some(fetched),
{
}

/// A refresh sends the cached ETag; when the service reports "not modified",
/// the cached entity is the answer and nothing is written.
pub proof fn lemma_not_modified_keeps_cache<T: Cacheable>(
    p: GetPlan<T>,
    cached: T,
    bucket: Map<Seq<char>, T>,
)
    requires
        plan_for(p, Some(cached), true),
    ensures
        (p matches GetPlan::Fetch { cached: Some(c), etag: Some(e) } && c == cached && e@ == cached.etag_view()),
        settlement(Some(cached), None) == Settled::Keep(Some(cached)),
        bucket_after(bucket, settlement(Some(cached), None)) == bucket,
        answer(settlement(Some(cached), None)) == Some(cached),
{
}

/// A refresh that brings a fresh copy stores and answers the merge of the
/// cached copy with it.
pub proof fn lemma_refresh_stores_merge<T: Cacheable>(cached: T, fetched: T, bucket: Map<Seq<char>, T>)
    ensures
        answer(settlement(Some(cached), Some(fetched))) == Some(T::merged(cached, fetched)),
        bucket_after(bucket, settlement(Some(cached), Some(fetched))) == bucket.insert(
            T::merged(cached, fetched).key_view(),
            T::merged(cached, fetched),
        ),
{
}

/// The records of a prefix scan: in scan order, those whose key begins with
/// `prefix` and whose value could be read.
pub open spec fn prefix_scan<T>(entries: Seq<(Seq<char>, Option<T>)>, prefix: Seq<char>) -> Seq<T>
    decreases entries.len(),
{
    if entries.len() == 0 {
        Seq::empty()
    } else {
        let rest = prefix_scan(entries.drop_last(), prefix);
        let (k, v) = entries.last();
        if prefix.is_prefix_of(k) && v is Some {
            rest.push(v->0)
        } else {
            rest
        }
    }
}

pub open spec fn entries_view<T>(entries: Seq<(String, Option<T>)>) -> Seq<(Seq<char>, Option<T>)> {
    entries.map_values(|e: (String, Option<T>)| (e.0@, e.1))
}

/// Collects, in order, the records of a scan whose key begins with `prefix`.
/// An entry whose value could not be read (`None`) is skipped; the scan goes on.
pub fn list_by_prefix<T>(entries: Vec<(String, Option<T>)>, prefix: &str) -> (r: Vec<T>)
    ensures
        r@ == prefix_scan(entries_view(entries@), prefix@),
{
    let ghost orig = entries@;
    let ghost all = entries_view(entries@);
    let mut r: Vec<T> = Vec::new();
    let mut rest = entries;
    let n = rest.len();
    let mut i: usize = 0;
    while i < n
        invariant
            n == orig.len(),
            all == entries_view(orig),
            i <= n,
            rest@ == orig.subrange(i as int, n as int),
            r@ == prefix_scan(all.subrange(0, i as int), prefix@),
        decreases n - i,
    {
        let e = rest.remove(0);
        let ghost sub = all.subrange(0, i + 1);
        proof {
            assert(sub.drop_last() =~= all.subrange(0, i as int));
            assert(sub.last() == all[i as int]);
            assert(e == orig[i as int]);
            assert(rest@ =~= orig.subrange(i + 1, n as int));
        }
        let (k, v) = e;
        if starts_with(k.as_str(), prefix) {
            match v {
                Some(x) => {
                    r.push(x);
                },
                None => {},
            }
        }
        i = i + 1;
    }
    proof {
        assert(all.subrange(0, n as int) =~= all);
    }
    r
}

/// Every record a prefix scan returns was stored under a key with that prefix,
/// and every readable record stored under such a key is returned.
pub proof fn lemma_prefix_scan_exact<T>(entries: Seq<(Seq<char>, Option<T>)>, prefix: Seq<char>)
    ensures
        forall|i: int|
            0 <= i < prefix_scan(entries, prefix).len() ==> exists|j: int|
                0 <= j < entries.len() && prefix.is_prefix_of(#[trigger] entries[j].0) && entries[j].1
                    == Some(#[trigger] prefix_scan(entries, prefix)[i]),
        forall|j: int|
            0 <= j < entries.len() && prefix.is_prefix_of(#[trigger] entries[j].0) && entries[j].1 is Some
                ==> prefix_scan(entries, prefix).contains(entries[j].1->0),
    decreases entries.len(),
{
    if entries.len() > 0 {
        let init = entries.drop_last();
        lemma_prefix_scan_exact(init, prefix);
        let rest = prefix_scan(init, prefix);
        let out = prefix_scan(entries, prefix);
        assert forall|i: int| 0 <= i < out.len() implies exists|j: int|
            0 <= j < entries.len() && prefix.is_prefix_of(#[trigger] entries[j].0) && entries[j].1
                == Some(#[trigger] out[i]) by {
            if i < rest.len() {
                assert(out[i] == rest[i]);
                let j = choose|j: int|
                    0 <= j < init.len() && prefix.is_prefix_of(#[trigger] init[j].0) && init[j].1
                        == Some(rest[i]);
                assert(entries[j] == init[j]);
            } else {
                assert(entries[entries.len() - 1] == entries.last());
            }
        }
        assert forall|j: int|
            0 <= j < entries.len() && prefix.is_prefix_of(#[trigger] entries[j].0) && entries[j].1 is Some
                implies out.contains(entries[j].1->0) by {
            if j < init.len() {
                assert(entries[j] == init[j]);
                assert(rest.contains(init[j].1->0));
                let k = choose|k: int| 0 <= k < rest.len() && rest[k] == init[j].1->0;
                assert(out[k] == rest[k]);
            } else {
                assert(entries[j] == entries.last());
                assert(out[out.len() - 1] == entries[j].1->0);
            }
        }
    }
}

} // verus!
