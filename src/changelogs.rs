//! The changelogs of a mod, by version.
use vstd::prelude::*;

use std::collections::HashMap;

use crate::cache::Cacheable;
use crate::key::{compound_key_string, key_text, CompoundKey};

verus! {

/// The changelog lines of each version of one mod, with the ETag of the copy.
/// The service does not send the game and mod id; they are filled in from the key.
#[derive(Debug)]
pub struct Changelogs {
    pub domain_name: String,
    pub mod_id: u32,
    pub etag: String,
    pub versions: HashMap<String, Vec<String>>,
}

impl Changelogs {
    pub fn versions(&self) -> (r: &HashMap<String, Vec<String>>)
        ensures
            *r == self.versions,
    {
        &self.versions
    }
}

impl Changelogs {
    /// Names the game and mod this record belongs to; the service's answer
    /// leaves them out, so they come from the key it was fetched by.
    pub fn assign_key(&mut self, key: &CompoundKey)
        ensures
            *final(self) == (Changelogs { domain_name: key.domain_name, mod_id: key.mod_id, ..*old(self) }),
            final(self).key_view() == key.view_text(),
    {
        self.domain_name = key.domain_name.clone();
        self.mod_id = key.mod_id;
    }
}

impl Cacheable for Changelogs {
    open spec fn key_view(&self) -> Seq<char> {
        key_text(self.domain_name@, self.mod_id as nat)
    }

    open spec fn etag_view(&self) -> Seq<char> {
        self.etag@
    }

    open spec fn same_except_etag(&self, other: &Self) -> bool {
        *self == (Changelogs { etag: self.etag, ..*other })
    }

    open spec fn merged(cached: Self, fetched: Self) -> Self {
        fetched
    }

    open spec fn bucket_view() -> Seq<char> {
        "changelogs"@
    }

    fn bucket_name() -> (r: &'static str) {
        "changelogs"
    }

    fn key_string(&self) -> (r: String) {
        compound_key_string(self.domain_name.as_str(), self.mod_id)
    }

    fn etag(&self) -> (r: &str) {
        self.etag.as_str()
    }

    fn set_etag(&mut self, etag: &str) {
        self.etag = String::from_str(etag);
    }

    fn update(self, fetched: Self) -> (r: Self) {
        fetched
    }
}

} // verus!
