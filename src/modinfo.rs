//! Full information about one mod, and the merge rule that keeps a pulled
//! mod's descriptive fields when it is refreshed.
use vstd::prelude::*;

use crate::cache::Cacheable;
use crate::endorsement::EndorsementStatus;
use crate::key::{compound_key_string, key_text, mod_page_url, mod_page_url_string, CompoundKey};

verus! {

/// The uploader's account on the site.
#[derive(Debug)]
pub struct ModAuthor {
    pub member_group_id: u16,
    pub member_id: u32,
    pub name: String,
}

impl Clone for ModAuthor {
    fn clone(&self) -> (r: Self)
        ensures
            r == *self,
    {
        ModAuthor { member_group_id: self.member_group_id, member_id: self.member_id, name: self.name.clone() }
    }
}

fn clone_opt_string(v: &Option<String>) -> (r: Option<String>)
    ensures
        r == *v,
{
    match v {
        Some(s) => Some(s.clone()),
        None => None,
    }
}

/// The user's endorsement of a mod, as the mod's record carries it.
#[derive(Debug)]
pub struct ModEndorsement {
    pub endorse_status: EndorsementStatus,
    pub timestamp: Option<u64>,
    pub version: Option<String>,
}

impl Clone for ModEndorsement {
    fn clone(&self) -> (r: Self)
        ensures
            r == *self,
    {
        ModEndorsement {
            endorse_status: self.endorse_status,
            timestamp: self.timestamp,
            version: clone_opt_string(&self.version),
        }
    }
}

/// Where a mod stands on the site.
#[derive(Clone, Copy, Debug, PartialEq, Eq, Structural)]
pub enum ModStatus {
    Hidden,
    NotPublished,
    Published,
    Removed,
    UnderModeration,
    Wastebinned,
}

/// Whether a fetched copy in this status replaces the cached one wholesale.
/// The other statuses mean the mod was pulled from public listing, and the
/// service no longer sends its descriptive fields.
pub open spec fn takes_all_fields(s: ModStatus) -> bool {
    s == ModStatus::NotPublished || s == ModStatus::Published
}

/// Everything the service reports about one mod, plus the ETag of the copy.
#[derive(Debug)]
pub struct ModInfoFull {
    pub domain_name: String,
    pub mod_id: u32,
    pub name: String,
    pub summary: String,
    pub picture_url: Option<String>,
    pub version: String,
    pub author: String,
    pub uploaded_by: String,
    pub user: ModAuthor,
    pub uploaded_users_profile_url: String,
    pub description: String,
    pub created_time: String,
    pub created_timestamp: u64,
    pub updated_time: String,
    pub updated_timestamp: u64,
    pub available: bool,
    pub status: ModStatus,
    pub allow_rating: bool,
    pub category_id: u16,
    pub contains_adult_content: bool,
    pub endorsement: Option<ModEndorsement>,
    pub endorsement_count: u32,
    pub game_id: u32,
    pub uid: u64,
    pub etag: String,
}

impl Clone for ModInfoFull {
    fn clone(&self) -> (r: Self)
        ensures
            r == *self,
    {
        ModInfoFull {
            domain_name: self.domain_name.clone(),
            mod_id: self.mod_id,
            name: self.name.clone(),
            summary: self.summary.clone(),
            picture_url: clone_opt_string(&self.picture_url),
            version: self.version.clone(),
            author: self.author.clone(),
            uploaded_by: self.uploaded_by.clone(),
            user: self.user.clone(),
            uploaded_users_profile_url: self.uploaded_users_profile_url.clone(),
            description: self.description.clone(),
            created_time: self.created_time.clone(),
            created_timestamp: self.created_timestamp,
            updated_time: self.updated_time.clone(),
            updated_timestamp: self.updated_timestamp,
            available: self.available,
            status: self.status,
            allow_rating: self.allow_rating,
            category_id: self.category_id,
            contains_adult_content: self.contains_adult_content,
            endorsement: match &self.endorsement {
                Some(e) => Some(e.clone()),
                None => None,
            },
            endorsement_count: self.endorsement_count,
            game_id: self.game_id,
            uid: self.uid,
            etag: self.etag.clone(),
        }
    }
}

/// A list of full mod records, as the trending and latest-mods lists come.
#[derive(Debug)]
pub struct ModInfoList {
    pub mods: Vec<ModInfoFull>,
}

/// The cached record after a refresh brought `fetched`: a published or
/// unpublished copy replaces it wholesale; for any other status only the
/// status, the update time and the ETag are taken over.
pub open spec fn merged_mod(cached: ModInfoFull, fetched: ModInfoFull) -> ModInfoFull {
    if takes_all_fields(fetched.status) {
        fetched
    } else {
        ModInfoFull {
            status: fetched.status,
            updated_time: fetched.updated_time,
            updated_timestamp: fetched.updated_timestamp,
            etag: fetched.etag,
            ..cached
        }
    }
}

impl ModInfoFull {
    pub fn available(&self) -> (r: bool)
        ensures
            r == self.available,
    {
        self.available
    }

    pub fn name(&self) -> (r: String)
        ensures
            r@ == self.name@,
    {
        self.name.clone()
    }

    pub fn summary(&self) -> (r: &str)
        ensures
            r@ == self.summary@,
    {
        self.summary.as_str()
    }

    pub fn description(&self) -> (r: &str)
        ensures
            r@ == self.description@,
    {
        self.description.as_str()
    }

    pub fn category_id(&self) -> (r: u16)
        ensures
            r == self.category_id,
    {
        self.category_id
    }

    pub fn mod_id(&self) -> (r: u32)
        ensures
            r == self.mod_id,
    {
        self.mod_id
    }

    pub fn author(&self) -> (r: &str)
        ensures
            r@ == self.author@,
    {
        self.author.as_str()
    }

    pub fn uploaded_by(&self) -> (r: &str)
        ensures
            r@ == self.uploaded_by@,
    {
        self.uploaded_by.as_str()
    }

    pub fn updated_timestamp(&self) -> (r: u64)
        ensures
            r == self.updated_timestamp,
    {
        self.updated_timestamp
    }

    /// The mod's page on the site.
    pub fn url(&self) -> (r: String)
        ensures
            r@ == mod_page_url(self.domain_name@, self.mod_id as nat),
    {
        mod_page_url_string(self.domain_name.as_str(), self.mod_id)
    }

    pub fn status(&self) -> (r: ModStatus)
        ensures
            r == self.status,
    {
        self.status
    }

    /// The key of this mod: its game and id.
    pub fn key(&self) -> (r: CompoundKey)
        ensures
            r.domain_name@ == self.domain_name@,
            r.mod_id == self.mod_id,
    {
        CompoundKey::new(self.domain_name.clone(), self.mod_id)
    }
}

impl Cacheable for ModInfoFull {
    open spec fn key_view(&self) -> Seq<char> {
        key_text(self.domain_name@, self.mod_id as nat)
    }

    open spec fn etag_view(&self) -> Seq<char> {
        self.etag@
    }

    open spec fn same_except_etag(&self, other: &Self) -> bool {
        *self == (ModInfoFull { etag: self.etag, ..*other })
    }

    open spec fn merged(cached: Self, fetched: Self) -> Self {
        merged_mod(cached, fetched)
    }

    open spec fn bucket_view() -> Seq<char> {
        "mods"@
    }

    fn bucket_name() -> (r: &'static str) {
        "mods"
    }

    fn key_string(&self) -> (r: String) {
        compound_key_string(self.domain_name.as_str(), self.mod_id)
    }

    fn etag(&self) -> (r: &str) {
        self.etag.as_str()
    }

    fn set_etag(&mut self, etag: &str) {
        self.etag = String::from_str(etag);
    }

    fn update(self, fetched: Self) -> (r: Self) {
        match fetched.status {
            ModStatus::NotPublished | ModStatus::Published => fetched,
            _ => {
                let mut result = self;
                result.status = fetched.status;
                result.updated_time = fetched.updated_time;
                result.updated_timestamp = fetched.updated_timestamp;
                result.etag = fetched.etag;
                result
            },
        }
    }
}

/// A refresh that finds a mod pulled from listing (hidden, removed,
/// wastebinned, under moderation) keeps the cached descriptive fields and
/// takes over only the new status, update time and ETag; a published or
/// unpublished copy is taken over in every field.
pub proof fn lemma_merge_by_status(cached: ModInfoFull, fetched: ModInfoFull)
    ensures
        takes_all_fields(fetched.status) ==> merged_mod(cached, fetched) == fetched,
        !takes_all_fields(fetched.status) ==> {
            let m = merged_mod(cached, fetched);
            &&& m.name == cached.name
            &&& m.summary == cached.summary
            &&& m.author == cached.author
            &&& m.uploaded_by == cached.uploaded_by
            &&& m.description == cached.description
            &&& m.version == cached.version
            &&& m.domain_name == cached.domain_name
            &&& m.mod_id == cached.mod_id
            &&& m.status == fetched.status
            &&& m.updated_time == fetched.updated_time
            &&& m.updated_timestamp == fetched.updated_timestamp
            &&& m.etag == fetched.etag
        },
{
}

} // verus!
