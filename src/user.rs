//! The account that the API key belongs to.
use vstd::prelude::*;

use crate::cache::Cacheable;

verus! {

/// The user the service reports for the API key in use.
#[derive(Debug)]
pub struct AuthenticatedUser {
    pub email: String,
    pub is_premium: bool,
    pub is_supporter: bool,
    pub name: String,
    pub profile_url: String,
    pub user_id: u32,
    pub etag: String,
}

impl Cacheable for AuthenticatedUser {
    open spec fn key_view(&self) -> Seq<char> {
        "authed_user"@
    }

    open spec fn etag_view(&self) -> Seq<char> {
        self.etag@
    }

    open spec fn same_except_etag(&self, other: &Self) -> bool {
        *self == (AuthenticatedUser { etag: self.etag, ..*other })
    }

    open spec fn merged(cached: Self, fetched: Self) -> Self {
        fetched
    }

    open spec fn bucket_view() -> Seq<char> {
        "authed_users"@
    }

    fn bucket_name() -> (r: &'static str) {
        "authed_users"
    }

    fn key_string(&self) -> (r: String) {
        String::from_str("authed_user")
    }

    fn etag(&self) -> (r: &str) {
        self.etag.as_str()
    }

    fn set_etag(&mut self, etag: &str) {
        self.etag = String::from_str(etag);
    }

    fn update(self, fetched: Self) -> (r: Self) {
        fetched
    }
}

} // verus!
