//! The addresses of the remote API's resources.
use vstd::prelude::*;

use crate::decimal::{decimal, push_decimal};

verus! {

/// The root of the remote API.
pub const NEXUS_BASE: &'static str = "https://api.nexusmods.com";

/// The path that validates the API key.
pub open spec fn validate_path() -> Seq<char> {
    "/v1/users/validate.json"@
}

pub fn validate_uri() -> (r: String)
    ensures
        r@ == NEXUS_BASE@ + validate_path(),
{
    let mut s = String::from_str(NEXUS_BASE);
    s.append("/v1/users/validate.json");
    proof {
        assert(s@ =~= NEXUS_BASE@ + validate_path());
    }
    s
}

/// The path of a game's metadata.
pub open spec fn game_path(game: Seq<char>) -> Seq<char> {
    "/v1/games/"@ + game + ".json"@
}

pub fn game_uri(game: &str) -> (r: String)
    ensures
        r@ == NEXUS_BASE@ + game_path(game@),
{
    let mut s = String::from_str(NEXUS_BASE);
    s.append("/v1/games/");
    s.append(game);
    s.append(".json");
    proof {
        assert(s@ =~= NEXUS_BASE@ + game_path(game@));
    }
    s
}

/// The path of a mod's full information.
pub open spec fn mod_path(game: Seq<char>, mod_id: nat) -> Seq<char> {
    "/v1/games/"@ + game + "/mods/"@ + decimal(mod_id) + ".json"@
}

pub fn mod_uri(game: &str, mod_id: u32) -> (r: String)
    ensures
        r@ == NEXUS_BASE@ + mod_path(game@, mod_id as nat),
{
    let mut s = String::from_str(NEXUS_BASE);
    s.append("/v1/games/");
    s.append(game);
    s.append("/mods/");
    push_decimal(&mut s, mod_id as u64);
    s.append(".json");
    proof {
        assert(s@ =~= NEXUS_BASE@ + mod_path(game@, mod_id as nat));
    }
    s
}

/// The path of a mod's changelogs.
pub open spec fn changelogs_path(game: Seq<char>, mod_id: nat) -> Seq<char> {
    "/v1/games/"@ + game + "/mods/"@ + decimal(mod_id) + "/changelogs.json"@
}

pub fn changelogs_uri(game: &str, mod_id: u32) -> (r: String)
    ensures
        r@ == NEXUS_BASE@ + changelogs_path(game@, mod_id as nat),
{
    let mut s = String::from_str(NEXUS_BASE);
    s.append("/v1/games/");
    s.append(game);
    s.append("/mods/");
    push_decimal(&mut s, mod_id as u64);
    s.append("/changelogs.json");
    proof {
        assert(s@ =~= NEXUS_BASE@ + changelogs_path(game@, mod_id as nat));
    }
    s
}

/// The path of a mod's file list.
pub open spec fn files_path(game: Seq<char>, mod_id: nat) -> Seq<char> {
    "/v1/games/"@ + game + "/mods/"@ + decimal(mod_id) + "/files.json"@
}

pub fn files_uri(game: &str, mod_id: u32) -> (r: String)
    ensures
        r@ == NEXUS_BASE@ + files_path(game@, mod_id as nat),
{
    let mut s = String::from_str(NEXUS_BASE);
    s.append("/v1/games/");
    s.append(game);
    s.append("/mods/");
    push_decimal(&mut s, mod_id as u64);
    s.append("/files.json");
    proof {
        assert(s@ =~= NEXUS_BASE@ + files_path(game@, mod_id as nat));
    }
    s
}

/// The path of one file of a mod.
pub open spec fn file_info_path(game: Seq<char>, mod_id: nat, file: Seq<char>) -> Seq<char> {
    "/v1/games/"@ + game + "/"@ + decimal(mod_id) + "/files/"@ + file + ".json"@
}

pub fn file_info_uri(game: &str, mod_id: u32, file: &str) -> (r: String)
    ensures
        r@ == NEXUS_BASE@ + file_info_path(game@, mod_id as nat, file@),
{
    let mut s = String::from_str(NEXUS_BASE);
    s.append("/v1/games/");
    s.append(game);
    s.append("/");
    push_decimal(&mut s, mod_id as u64);
    s.append("/files/");
    s.append(file);
    s.append(".json");
    proof {
        assert(s@ =~= NEXUS_BASE@ + file_info_path(game@, mod_id as nat, file@));
    }
    s
}

/// The path of the user's tracked-mods list.
pub open spec fn tracked_path() -> Seq<char> {
    "/v1/user/tracked_mods.json"@
}

pub fn tracked_uri() -> (r: String)
    ensures
        r@ == NEXUS_BASE@ + tracked_path(),
{
    let mut s = String::from_str(NEXUS_BASE);
    s.append("/v1/user/tracked_mods.json");
    proof {
        assert(s@ =~= NEXUS_BASE@ + tracked_path());
    }
    s
}

/// The path that tracks or untracks a mod of a game.
pub open spec fn track_path(game: Seq<char>) -> Seq<char> {
    "/v1/user/tracked_mods.json?domain_name="@ + game
}

pub fn track_uri(game: &str) -> (r: String)
    ensures
        r@ == NEXUS_BASE@ + track_path(game@),
{
    let mut s = String::from_str(NEXUS_BASE);
    s.append("/v1/user/tracked_mods.json?domain_name=");
    s.append(game);
    proof {
        assert(s@ =~= NEXUS_BASE@ + track_path(game@));
    }
    s
}

/// The path of the user's endorsement list.
pub open spec fn endorsements_path() -> Seq<char> {
    "/v1/user/endorsements.json"@
}

pub fn endorsements_uri() -> (r: String)
    ensures
        r@ == NEXUS_BASE@ + endorsements_path(),
{
    let mut s = String::from_str(NEXUS_BASE);
    s.append("/v1/user/endorsements.json");
    proof {
        assert(s@ =~= NEXUS_BASE@ + endorsements_path());
    }
    s
}

/// The path that endorses a mod.
pub open spec fn endorse_path(game: Seq<char>, mod_id: nat) -> Seq<char> {
    "/v1/games/"@ + game + "/mods/"@ + decimal(mod_id) + "/endorse.json"@
}

pub fn endorse_uri(game: &str, mod_id: u32) -> (r: String)
    ensures
        r@ == NEXUS_BASE@ + endorse_path(game@, mod_id as nat),
{
    let mut s = String::from_str(NEXUS_BASE);
    s.append("/v1/games/");
    s.append(game);
    s.append("/mods/");
    push_decimal(&mut s, mod_id as u64);
    s.append("/endorse.json");
    proof {
        assert(s@ =~= NEXUS_BASE@ + endorse_path(game@, mod_id as nat));
    }
    s
}

/// The path that abstains from endorsing a mod.
pub open spec fn abstain_path(game: Seq<char>, mod_id: nat) -> Seq<char> {
    "/v1/games/"@ + game + "/mods/"@ + decimal(mod_id) + "/abstain.json"@
}

pub fn abstain_uri(game: &str, mod_id: u32) -> (r: String)
    ensures
        r@ == NEXUS_BASE@ + abstain_path(game@, mod_id as nat),
{
    let mut s = String::from_str(NEXUS_BASE);
    s.append("/v1/games/");
    s.append(game);
    s.append("/mods/");
    push_decimal(&mut s, mod_id as u64);
    s.append("/abstain.json");
    proof {
        assert(s@ =~= NEXUS_BASE@ + abstain_path(game@, mod_id as nat));
    }
    s
}

/// The path of a game's trending mods (at most ten).
pub open spec fn trending_path(game: Seq<char>) -> Seq<char> {
    "/v1/games/"@ + game + "/mods/trending.json"@
}

pub fn trending_uri(game: &str) -> (r: String)
    ensures
        r@ == NEXUS_BASE@ + trending_path(game@),
{
    let mut s = String::from_str(NEXUS_BASE);
    s.append("/v1/games/");
    s.append(game);
    s.append("/mods/trending.json");
    proof {
        assert(s@ =~= NEXUS_BASE@ + trending_path(game@));
    }
    s
}

/// The path of a game's ten most recently added mods.
pub open spec fn latest_added_path(game: Seq<char>) -> Seq<char> {
    "/v1/games/"@ + game + "/mods/latest_added.json"@
}

pub fn latest_added_uri(game: &str) -> (r: String)
    ensures
        r@ == NEXUS_BASE@ + latest_added_path(game@),
{
    let mut s = String::from_str(NEXUS_BASE);
    s.append("/v1/games/");
    s.append(game);
    s.append("/mods/latest_added.json");
    proof {
        assert(s@ =~= NEXUS_BASE@ + latest_added_path(game@));
    }
    s
}

/// The path of a game's ten most recently updated mods.
pub open spec fn latest_updated_path(game: Seq<char>) -> Seq<char> {
    "/v1/games/"@ + game + "/mods/latest_updated.json"@
}

pub fn latest_updated_uri(game: &str) -> (r: String)
    ensures
        r@ == NEXUS_BASE@ + latest_updated_path(game@),
{
    let mut s = String::from_str(NEXUS_BASE);
    s.append("/v1/games/");
    s.append(game);
    s.append("/mods/latest_updated.json");
    proof {
        assert(s@ =~= NEXUS_BASE@ + latest_updated_path(game@));
    }
    s
}

} // verus!
