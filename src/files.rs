//! The files uploaded for a mod.
use vstd::prelude::*;

use crate::cache::Cacheable;
use crate::key::{compound_key_string, key_text, CompoundKey};

verus! {

/// The file category the service uses for archived files.
pub const ARCHIVED_CATEGORY: u32 = 7;

/// One uploaded file of a mod.
#[derive(Debug, Clone)]
pub struct FileInfo {
    pub category_id: u32,
    pub category_name: Option<String>,
    pub changelog_html: Option<String>,
    pub content_preview_link: String,
    pub description: String,
    pub external_virus_scan_url: String,
    pub file_id: usize,
    pub file_name: String,
    pub id: Vec<usize>,
    pub is_primary: bool,
    pub mod_version: String,
    pub name: String,
    pub size_in_bytes: u64,
    pub size_kb: usize,
    pub size: u64,
    pub uploaded_time: String,
    pub uploaded_timestamp: usize,
    pub uuid: Option<String>,
    pub version: String,
}

/// A replacement of one file by another.
#[derive(Debug)]
pub struct FileUpdates {
    pub old_file_id: usize,
    pub new_file_id: usize,
    pub old_file_name: String,
    pub new_file_name: String,
    pub uploaded_timestamp: usize,
    pub uploaded_time: String,
}

/// The files of one mod, with the list's ETag.
#[derive(Debug)]
pub struct Files {
    pub domain_name: String,
    pub mod_id: u32,
    pub etag: String,
    pub files: Vec<FileInfo>,
    pub file_updates: Vec<FileUpdates>,
}

pub open spec fn is_current(f: FileInfo) -> bool {
    f.category_id != ARCHIVED_CATEGORY
}

pub open spec fn current_file() -> spec_fn(FileInfo) -> bool {
    |f: FileInfo| is_current(f)
}

pub open spec fn has_file_id(id: usize) -> spec_fn(FileInfo) -> bool {
    |f: FileInfo| f.file_id == id
}

pub open spec fn primary() -> spec_fn(FileInfo) -> bool {
    |f: FileInfo| f.is_primary
}

/// Index of the first file of `fs` that `p` accepts, or -1.
pub open spec fn first_index(fs: Seq<FileInfo>, p: spec_fn(FileInfo) -> bool) -> int
    decreases fs.len(),
{
    if fs.len() == 0 {
        -1
    } else if p(fs[0]) {
        0
    } else {
        let k = first_index(fs.drop_first(), p);
        if k < 0 {
            -1
        } else {
            k + 1
        }
    }
}

pub open spec fn uploaded_at(t: usize) -> spec_fn(FileInfo) -> bool {
    |f: FileInfo| f.uploaded_timestamp == t
}

pub open spec fn deref_files(v: Seq<&FileInfo>) -> Seq<FileInfo> {
    v.map_values(|f: &FileInfo| *f)
}

/// Relies on `slice::sort_by_key`: a stable sort by the upload time; files
/// uploaded at the same time keep their order.
#[verifier::external_body]
fn sort_files_by_upload(v: &mut Vec<&FileInfo>)
    ensures
        deref_files(final(v)@).to_multiset() == deref_files(old(v)@).to_multiset(),
        forall|i: int|
            0 <= i < final(v)@.len() - 1 ==> (#[trigger] final(v)@[i]).uploaded_timestamp
                <= final(v)@[i + 1].uploaded_timestamp,
        forall|t: usize|
            #[trigger] deref_files(final(v)@).filter(uploaded_at(t)) == deref_files(old(v)@).filter(
                uploaded_at(t),
            ),
{
    v.sort_by_key(|f| f.uploaded_timestamp)
}

proof fn lemma_first_index_step(fs: Seq<FileInfo>, p: spec_fn(FileInfo) -> bool, i: int)
    requires
        0 <= i < fs.len(),
        forall|k: int| 0 <= k < i ==> !p(#[trigger] fs[k]),
    ensures
        p(fs[i]) ==> first_index(fs, p) == i,
        !p(fs[i]) && i == fs.len() - 1 ==> first_index(fs, p) == -1,
    decreases i,
{
    if i > 0 {
        assert(!p(fs[0]));
        assert forall|k: int| 0 <= k < i - 1 implies !p(#[trigger] fs.drop_first()[k]) by {
            assert(fs.drop_first()[k] == fs[k + 1]);
        }
        assert(fs.drop_first()[i - 1] == fs[i]);
        lemma_first_index_step(fs.drop_first(), p, i - 1);
        let k = first_index(fs.drop_first(), p);
        assert(first_index(fs, p) == if k < 0 { -1 } else { k + 1 });
        if p(fs[i]) {
            assert(k == i - 1);
            assert(first_index(fs, p) == i);
        }
    } else if !p(fs[0]) && fs.len() == 1 {
        assert(fs.drop_first().len() == 0);
        assert(first_index(fs.drop_first(), p) == -1);
    }
}

impl Files {
    pub fn files(&self) -> (r: &Vec<FileInfo>)
        ensures
            r@ == self.files@,
    {
        &self.files
    }

    /// The files that are not archived, newest upload first.
    pub fn current_files(&self) -> (r: Vec<&FileInfo>)
        ensures
            deref_files(r@).to_multiset() == self.files@.filter(current_file()).to_multiset(),
            forall|i: int|
                0 <= i < r@.len() - 1 ==> (#[trigger] r@[i]).uploaded_timestamp >= r@[i
                    + 1].uploaded_timestamp,
            forall|t: usize|
                #[trigger] deref_files(r@).filter(uploaded_at(t)) == self.files@.filter(current_file()).filter(
                    uploaded_at(t),
                ).reverse(),
    {
        let mut kept: Vec<&FileInfo> = Vec::new();
        let mut i: usize = 0;
        while i < self.files.len()
            invariant
                i <= self.files@.len(),
                deref_files(kept@) == self.files@.subrange(0, i as int).filter(current_file()),
            decreases self.files@.len() - i,
        {
            proof {
                reveal(Seq::filter);
                assert(self.files@.subrange(0, i + 1).drop_last() =~= self.files@.subrange(0, i as int));
            }
            if self.files[i].category_id != ARCHIVED_CATEGORY {
                kept.push(&self.files[i]);
            }
            proof {
                assert(deref_files(kept@) =~= self.files@.subrange(0, i + 1).filter(current_file()));
            }
            i = i + 1;
        }
        proof {
            assert(self.files@.subrange(0, self.files@.len() as int) =~= self.files@);
        }
        sort_files_by_upload(&mut kept);
        // newest first
        let ghost asc = kept@;
        let mut r: Vec<&FileInfo> = Vec::new();
        while kept.len() > 0
            invariant
                kept@ == asc.subrange(0, kept@.len() as int),
                kept@.len() <= asc.len(),
                r@ == asc.subrange(kept@.len() as int, asc.len() as int).reverse(),
                forall|i: int|
                    0 <= i < asc.len() - 1 ==> (#[trigger] asc[i]).uploaded_timestamp
                        <= asc[i + 1].uploaded_timestamp,
            decreases kept@.len(),
        {
            let ghost k = kept@.len();
            let f = kept.pop().unwrap();
            r.push(f);
            proof {
                assert(kept@ =~= asc.subrange(0, k - 1));
                assert(r@ =~= asc.subrange(k - 1, asc.len() as int).reverse());
            }
        }
        proof {
            assert(r@ =~= asc.reverse());
            lemma_newest_first(asc);
            assert forall|t: usize| #[trigger] deref_files(r@).filter(uploaded_at(t)) == self.files@.filter(
                current_file(),
            ).filter(uploaded_at(t)).reverse() by {
                assert(deref_files(r@) =~= deref_files(asc).reverse());
                lemma_filter_reverse(deref_files(asc), uploaded_at(t));
            }
        }
        r
    }

    /// The first file with id `file_id`.
    pub fn file_by_id(&self, file_id: usize) -> (r: Option<&FileInfo>)
        ensures
            first_index(self.files@, has_file_id(file_id)) == -1 ==> r is None,
            first_index(self.files@, has_file_id(file_id)) >= 0 ==> (r matches Some(f) && *f
                == self.files@[first_index(self.files@, has_file_id(file_id))]),
    {
        let ghost p = has_file_id(file_id);
        let mut i: usize = 0;
        while i < self.files.len()
            invariant
                p == has_file_id(file_id),
                i <= self.files@.len(),
                forall|k: int| 0 <= k < i ==> !p(#[trigger] self.files@[k]),
            decreases self.files@.len() - i,
        {
            proof {
                lemma_first_index_step(self.files@, p, i as int);
            }
            if self.files[i].file_id == file_id {
                proof {
                    assert(p(self.files@[i as int]));
                }
                return Some(&self.files[i]);
            }
            i = i + 1;
        }
        proof {
            lemma_first_index_none(self.files@, p);
        }
        None
    }

    /// The first file marked primary.
    pub fn primary_file(&self) -> (r: Option<&FileInfo>)
        ensures
            first_index(self.files@, primary()) == -1 ==> r is None,
            first_index(self.files@, primary()) >= 0 ==> (r matches Some(f) && *f
                == self.files@[first_index(self.files@, primary())]),
    {
        let ghost p = primary();
        let mut i: usize = 0;
        while i < self.files.len()
            invariant
                p == primary(),
                i <= self.files@.len(),
                forall|k: int| 0 <= k < i ==> !p(#[trigger] self.files@[k]),
            decreases self.files@.len() - i,
        {
            proof {
                lemma_first_index_step(self.files@, p, i as int);
            }
            if self.files[i].is_primary {
                proof {
                    assert(p(self.files@[i as int]));
                }
                return Some(&self.files[i]);
            }
            i = i + 1;
        }
        proof {
            lemma_first_index_none(self.files@, p);
        }
        None
    }
}

proof fn lemma_first_index_none(fs: Seq<FileInfo>, p: spec_fn(FileInfo) -> bool)
    requires
        forall|k: int| 0 <= k < fs.len() ==> !p(#[trigger] fs[k]),
    ensures
        first_index(fs, p) == -1,
    decreases fs.len(),
{
    if fs.len() > 0 {
        assert forall|k: int| 0 <= k < fs.drop_first().len() implies !p(#[trigger] fs.drop_first()[k]) by {
            assert(fs.drop_first()[k] == fs[k + 1]);
        }
        lemma_first_index_none(fs.drop_first(), p);
    }
}

proof fn lemma_filter_reverse<A>(s: Seq<A>, p: spec_fn(A) -> bool)
    ensures
        s.reverse().filter(p) == s.filter(p).reverse(),
    decreases s.len(),
{
    reveal(Seq::filter);
    if s.len() > 0 {
        lemma_filter_reverse(s.drop_last(), p);
        let x = s.last();
        assert(s.reverse() =~= seq![x] + s.drop_last().reverse());
        Seq::filter_distributes_over_add(seq![x], s.drop_last().reverse(), p);
        assert(seq![x].drop_last() =~= Seq::<A>::empty());
        assert(Seq::<A>::empty().filter(p) =~= Seq::<A>::empty());
        if p(x) {
            assert(seq![x].filter(p) =~= seq![x]);
            assert(s.filter(p).reverse() =~= seq![x] + s.drop_last().filter(p).reverse());
        } else {
            assert(seq![x].filter(p) =~= Seq::<A>::empty());
            assert(s.filter(p) == s.drop_last().filter(p));
        }
        assert(s.reverse().filter(p) =~= s.filter(p).reverse());
    } else {
        assert(s.reverse() =~= s);
    }
}

proof fn lemma_newest_first(asc: Seq<&FileInfo>)
    requires
        forall|i: int|
            0 <= i < asc.len() - 1 ==> (#[trigger] asc[i]).uploaded_timestamp <= asc[i + 1].uploaded_timestamp,
    ensures
        deref_files(asc.reverse()).to_multiset() == deref_files(asc).to_multiset(),
        forall|i: int|
            0 <= i < asc.reverse().len() - 1 ==> (#[trigger] asc.reverse()[i]).uploaded_timestamp
                >= asc.reverse()[i + 1].uploaded_timestamp,
{
    assert(deref_files(asc.reverse()) =~= deref_files(asc).reverse());
    lemma_reverse_multiset(deref_files(asc));
    let r = asc.reverse();
    assert forall|i: int| 0 <= i < r.len() - 1 implies (#[trigger] r[i]).uploaded_timestamp
        >= r[i + 1].uploaded_timestamp by {
        assert(r[i] == asc[asc.len() - 1 - i]);
        assert(r[i + 1] == asc[asc.len() - 2 - i]);
    }
}

proof fn lemma_reverse_multiset<A>(s: Seq<A>)
    ensures
        s.reverse().to_multiset() == s.to_multiset(),
    decreases s.len(),
{
    broadcast use vstd::seq_lib::group_to_multiset_ensures;
    if s.len() > 0 {
        lemma_reverse_multiset(s.drop_first());
        assert(s.reverse() =~= s.drop_first().reverse().push(s[0]));
        assert(s =~= seq![s[0]] + s.drop_first());
        vstd::seq_lib::lemma_multiset_commutative(seq![s[0]], s.drop_first());
        assert(seq![s[0]].to_multiset() =~= vstd::multiset::Multiset::empty().insert(s[0])) by {
            assert(seq![s[0]] =~= Seq::<A>::empty().push(s[0]));
        }
    }
}

impl Files {
    /// Names the game and mod this record belongs to; the service's answer
    /// leaves them out, so they come from the key it was fetched by.
    pub fn assign_key(&mut self, key: &CompoundKey)
        ensures
            *final(self) == (Files { domain_name: key.domain_name, mod_id: key.mod_id, ..*old(self) }),
            final(self).key_view() == key.view_text(),
    {
        self.domain_name = key.domain_name.clone();
        self.mod_id = key.mod_id;
    }
}

impl Cacheable for Files {
    open spec fn key_view(&self) -> Seq<char> {
        key_text(self.domain_name@, self.mod_id as nat)
    }

    open spec fn etag_view(&self) -> Seq<char> {
        self.etag@
    }

    open spec fn same_except_etag(&self, other: &Self) -> bool {
        *self == (Files { etag: self.etag, ..*other })
    }

    open spec fn merged(cached: Self, fetched: Self) -> Self {
        fetched
    }

    open spec fn bucket_view() -> Seq<char> {
        "files"@
    }

    fn bucket_name() -> (r: &'static str) {
        "files"
    }

    fn key_string(&self) -> (r: String) {
        compound_key_string(self.domain_name.as_str(), self.mod_id)
    }

    fn etag(&self) -> (r: &str) {
        self.etag.as_str()
    }

    fn set_etag(&mut self, etag: &str) {
        self.etag = String::from_str(etag);
    }

    fn update(self, fetched: Self) -> (r: Self) {
        fetched
    }
}

} // verus!
