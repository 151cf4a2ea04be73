//! Searching a game's cached mods by a case-insensitive regular expression.
use vstd::prelude::*;

use crate::cache::list_by_prefix;
use crate::game::{game_mods, GameMetadata};
use crate::key::game_prefix_string;
use crate::modinfo::ModInfoFull;
use crate::sorting::{mods_in_order, SortByKey, SortKey};

verus! {

/// Whether the regex crate, reading `pattern` case-insensitively, finds a
/// match in `text`; `None` where it refuses the pattern.
pub uninterp spec fn ci_regex_match(pattern: Seq<char>, text: Seq<char>) -> Option<bool>;

/// Relies on regex's `RegexBuilder` (with `case_insensitive(true)`) and
/// `Regex::is_match`: whether the pattern matches anywhere in the text.
#[verifier::external_body]
fn ci_find(pattern: &str, text: &str) -> (r: Option<bool>)
    ensures
        r == ci_regex_match(pattern@, text@),
{
    regex::RegexBuilder::new(pattern).case_insensitive(true).build().ok().map(|re| re.is_match(text))
}

pub open spec fn name_found(pattern: Seq<char>) -> spec_fn(ModInfoFull) -> bool {
    |m: ModInfoFull| ci_regex_match(pattern, m.name@) == Some(true)
}

pub open spec fn text_found(pattern: Seq<char>) -> spec_fn(ModInfoFull) -> bool {
    |m: ModInfoFull|
        ci_regex_match(pattern, m.name@) == Some(true) || ci_regex_match(pattern, m.summary@) == Some(true)
            || ci_regex_match(pattern, m.uploaded_by@) == Some(true) || ci_regex_match(pattern, m.author@)
            == Some(true)
}

/// Whether the pattern is accepted, and every field that a search reads could be searched.
pub open spec fn name_search_ok(pattern: Seq<char>, ms: Seq<ModInfoFull>) -> bool {
    ci_regex_match(pattern, Seq::empty()) is Some && forall|i: int|
        0 <= i < ms.len() ==> ci_regex_match(pattern, (#[trigger] ms[i]).name@) is Some
}

pub open spec fn text_search_ok(pattern: Seq<char>, ms: Seq<ModInfoFull>) -> bool {
    ci_regex_match(pattern, Seq::empty()) is Some && forall|i: int|
        0 <= i < ms.len() ==> {
            &&& ci_regex_match(pattern, (#[trigger] ms[i]).name@) is Some
            &&& ci_regex_match(pattern, ms[i].summary@) is Some
            &&& ci_regex_match(pattern, ms[i].uploaded_by@) is Some
            &&& ci_regex_match(pattern, ms[i].author@) is Some
        }
}

fn search_names(ms: Vec<ModInfoFull>, pattern: &str) -> (r: Option<Vec<ModInfoFull>>)
    ensures
        match r {
            None => !name_search_ok(pattern@, ms@),
            Some(v) => name_search_ok(pattern@, ms@) && v@ == ms@.filter(name_found(pattern@)),
        },
{
    let empty = String::new();
    if ci_find(pattern, empty.as_str()).is_none() {
        return None;
    }
    let ghost orig = ms@;
    let mut rest = ms;
    let mut r: Vec<ModInfoFull> = Vec::new();
    let n = rest.len();
    let mut i: usize = 0;
    while i < n
        invariant
            orig == ms@,
            n == orig.len(),
            i <= n,
            ci_regex_match(pattern@, Seq::empty()) is Some,
            rest@ == orig.subrange(i as int, n as int),
            forall|k: int| 0 <= k < i ==> ci_regex_match(pattern@, (#[trigger] orig[k]).name@) is Some,
            r@ == orig.subrange(0, i as int).filter(name_found(pattern@)),
        decreases n - i,
    {
        let m = rest.remove(0);
        proof {
            reveal(Seq::filter);
            assert(orig.subrange(0, i + 1).drop_last() =~= orig.subrange(0, i as int));
            assert(m == orig[i as int]);
            assert(rest@ =~= orig.subrange(i + 1, n as int));
        }
        match ci_find(pattern, m.name.as_str()) {
            None => {
                proof {
                    assert(ci_regex_match(pattern@, orig[i as int].name@) is None);
                }
                return None;
            },
            Some(found) => {
                if found {
                    r.push(m);
                }
            },
        }
        proof {
            assert(r@ =~= orig.subrange(0, i + 1).filter(name_found(pattern@)));
        }
        i = i + 1;
    }
    proof {
        assert(orig.subrange(0, n as int) =~= orig);
    }
    Some(r)
}

fn search_text(ms: Vec<ModInfoFull>, pattern: &str) -> (r: Option<Vec<ModInfoFull>>)
    ensures
        match r {
            None => !text_search_ok(pattern@, ms@),
            Some(v) => text_search_ok(pattern@, ms@) && v@ == ms@.filter(text_found(pattern@)),
        },
{
    let empty = String::new();
    if ci_find(pattern, empty.as_str()).is_none() {
        return None;
    }
    let ghost orig = ms@;
    let mut rest = ms;
    let mut r: Vec<ModInfoFull> = Vec::new();
    let n = rest.len();
    let mut i: usize = 0;
    while i < n
        invariant
            orig == ms@,
            n == orig.len(),
            i <= n,
            ci_regex_match(pattern@, Seq::empty()) is Some,
            rest@ == orig.subrange(i as int, n as int),
            forall|k: int|
                0 <= k < i ==> {
                    &&& ci_regex_match(pattern@, (#[trigger] orig[k]).name@) is Some
                    &&& ci_regex_match(pattern@, orig[k].summary@) is Some
                    &&& ci_regex_match(pattern@, orig[k].uploaded_by@) is Some
                    &&& ci_regex_match(pattern@, orig[k].author@) is Some
                },
            r@ == orig.subrange(0, i as int).filter(text_found(pattern@)),
        decreases n - i,
    {
        let m = rest.remove(0);
        proof {
            reveal(Seq::filter);
            assert(orig.subrange(0, i + 1).drop_last() =~= orig.subrange(0, i as int));
            assert(m == orig[i as int]);
            assert(rest@ =~= orig.subrange(i + 1, n as int));
        }
        let a = ci_find(pattern, m.name.as_str());
        let b = ci_find(pattern, m.summary.as_str());
        let c = ci_find(pattern, m.uploaded_by.as_str());
        let d = ci_find(pattern, m.author.as_str());
        match (a, b, c, d) {
            (Some(a), Some(b), Some(c), Some(d)) => {
                if a || b || c || d {
                    r.push(m);
                }
            },
            _ => {
                proof {
                    let k = i as int;
                    assert(orig[k] == m);
                    assert(!(ci_regex_match(pattern@, orig[k].name@) is Some && ci_regex_match(
                        pattern@,
                        orig[k].summary@,
                    ) is Some && ci_regex_match(pattern@, orig[k].uploaded_by@) is Some && ci_regex_match(
                        pattern@,
                        orig[k].author@,
                    ) is Some));
                }
                return None;
            },
        }
        proof {
            assert(r@ =~= orig.subrange(0, i + 1).filter(text_found(pattern@)));
        }
        i = i + 1;
    }
    proof {
        assert(orig.subrange(0, n as int) =~= orig);
    }
    Some(r)
}

impl GameMetadata {
    /// This game's cached mods whose name matches `filter`, a regular
    /// expression read without regard to letter case, in scan order.
    /// `None` where the regex crate refuses the pattern.
    pub fn mods_name_match(&self, filter: &str, entries: Vec<(String, Option<ModInfoFull>)>) -> (r: Option<
        Vec<ModInfoFull>,
    >)
        ensures
            match r {
                None => !name_search_ok(filter@, game_mods(self.domain_name@, entries@)),
                Some(v) => v@ == game_mods(self.domain_name@, entries@).filter(name_found(filter@)),
            },
    {
        let prefix = game_prefix_string(self.domain_name.as_str());
        let candidates = list_by_prefix(entries, prefix.as_str());
        search_names(candidates, filter)
    }

    /// This game's cached mods whose name, summary, uploader or author matches
    /// `filter` (read without regard to letter case), ordered by name.
    /// `None` where the regex crate refuses the pattern.
    #[verifier::rlimit(40)]
    pub fn mods_match_text(&self, filter: &str, entries: Vec<(String, Option<ModInfoFull>)>) -> (r: Option<
        Vec<ModInfoFull>,
    >)
        ensures
            match r {
                None => !text_search_ok(filter@, game_mods(self.domain_name@, entries@)),
                Some(v) => {
                    &&& v@.to_multiset() == game_mods(self.domain_name@, entries@).filter(
                        text_found(filter@),
                    ).to_multiset()
                    &&& mods_in_order(v@, SortKey::Name)
                },
            },
    {
        let prefix = game_prefix_string(self.domain_name.as_str());
        let candidates = list_by_prefix(entries, prefix.as_str());
        match search_text(candidates, filter) {
            None => None,
            Some(mut found) => {
                found.sort(&SortKey::Name);
                Some(found)
            },
        }
    }
}

} // verus!
