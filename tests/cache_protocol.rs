use modcache::cache::{list_by_prefix, plan_get, settle_fetch, Cacheable, GetPlan, Settled};
use modcache::endorsement::EndorsementStatus;
use modcache::key::CompoundKey;
use modcache::modinfo::{ModAuthor, ModEndorsement, ModInfoFull, ModStatus};

fn mod_record(domain: &str, id: u32, name: &str, status: ModStatus, etag: &str) -> ModInfoFull {
    ModInfoFull {
        domain_name: domain.to_string(),
        mod_id: id,
        name: name.to_string(),
        summary: format!("summary of {}", name),
        picture_url: None,
        version: "1.0".to_string(),
        author: "Some Author".to_string(),
        uploaded_by: "uploader".to_string(),
        user: ModAuthor { member_group_id: 3, member_id: 77, name: "uploader".to_string() },
        uploaded_users_profile_url: "https://example.com/u/77".to_string(),
        description: "a long description".to_string(),
        created_time: "2021-02-18T17:05:56.000+00:00".to_string(),
        created_timestamp: 1613667956,
        updated_time: "2021-02-18T17:05:56.000+00:00".to_string(),
        updated_timestamp: 1613667956,
        available: true,
        status,
        allow_rating: true,
        category_id: 5,
        contains_adult_content: false,
        endorsement: Some(ModEndorsement {
            endorse_status: EndorsementStatus::Undecided,
            timestamp: None,
            version: None,
        }),
        endorsement_count: 10,
        game_id: 1704,
        uid: 42,
        etag: etag.to_string(),
    }
}

#[test]
fn hit_without_refresh_makes_no_fetch() {
    let cached = mod_record("skyrim", 1, "Foo", ModStatus::Published, "W/\"abc\"");
    match plan_get(Some(cached), false) {
        GetPlan::Hit(m) => {
            assert_eq!(m.name, "Foo");
            assert_eq!(m.etag, "W/\"abc\"");
        }
        GetPlan::Fetch { .. } => panic!("a fresh hit must not fetch"),
    }
}

#[test]
fn miss_fetches_unconditionally_and_stores() {
    let plan: GetPlan<ModInfoFull> = plan_get(None, false);
    match plan {
        GetPlan::Fetch { cached, etag } => {
            assert!(cached.is_none());
            assert!(etag.is_none());
        }
        GetPlan::Hit(_) => panic!("a miss must fetch"),
    }
    let fetched = mod_record("skyrim", 2, "Bar", ModStatus::Published, "etag-1");
    match settle_fetch(None, Some(fetched)) {
        Settled::Write(m) => {
            assert_eq!(m.key_string(), "skyrim/2");
            assert_eq!(m.etag(), "etag-1");
        }
        Settled::Keep(_) => panic!("a fetched entity must be written"),
    }
}

#[test]
fn miss_with_nothing_fetched_answers_none() {
    match settle_fetch::<ModInfoFull>(None, None) {
        Settled::Keep(None) => {}
        _ => panic!("nothing to answer"),
    }
}

#[test]
fn refresh_sends_cached_etag() {
    let cached = mod_record("skyrim", 3, "Baz", ModStatus::Published, "E");
    match plan_get(Some(cached), true) {
        GetPlan::Fetch { cached: Some(c), etag: Some(e) } => {
            assert_eq!(e, "E");
            assert_eq!(c.name, "Baz");
        }
        _ => panic!("a refresh must fetch conditionally"),
    }
}

#[test]
fn not_modified_returns_cached_without_write() {
    let cached = mod_record("skyrim", 3, "Baz", ModStatus::Published, "E");
    match settle_fetch(Some(cached), None) {
        Settled::Keep(Some(m)) => {
            assert_eq!(m.name, "Baz");
            assert_eq!(m.etag, "E");
        }
        _ => panic!("not modified must keep the cached copy unwritten"),
    }
}

#[test]
fn first_fetch_then_cached_hit_scenario() {
    // cache empty: the plan asks for an unconditional fetch
    let plan: GetPlan<ModInfoFull> = plan_get(None, false);
    assert!(matches!(plan, GetPlan::Fetch { cached: None, etag: None }));
    let fetched = mod_record("skyrimspecialedition", 12345, "Foo", ModStatus::Published, "etag-9");
    let stored = match settle_fetch(None, Some(fetched)) {
        Settled::Write(m) => m,
        Settled::Keep(_) => panic!("must be written"),
    };
    assert_eq!(stored.key_string(), "skyrimspecialedition/12345");
    assert_eq!(stored.etag(), "etag-9");
    // second call, no refresh: answered from the cache without a fetch
    match plan_get(Some(stored), false) {
        GetPlan::Hit(m) => {
            assert_eq!(m.mod_id, 12345);
            assert_eq!(m.etag, "etag-9");
            assert_eq!(m.name, "Foo");
        }
        GetPlan::Fetch { .. } => panic!("no network call expected"),
    }
}

#[test]
fn wastebinned_refresh_keeps_name_scenario() {
    let cached = mod_record("skyrim", 7, "Foo", ModStatus::Published, "old");
    let mut fetched = mod_record("skyrim", 7, "", ModStatus::Wastebinned, "new");
    fetched.summary = String::new();
    fetched.updated_time = "2024-01-01T00:00:00.000+00:00".to_string();
    fetched.updated_timestamp = 1704067200;
    let merged = match settle_fetch(Some(cached), Some(fetched)) {
        Settled::Write(m) => m,
        Settled::Keep(_) => panic!("a fresh copy must be written"),
    };
    assert_eq!(merged.status, ModStatus::Wastebinned);
    assert_eq!(merged.name, "Foo");
    assert_eq!(merged.etag, "new");
    assert_eq!(merged.updated_timestamp, 1704067200);
}

#[test]
fn removed_refresh_keeps_descriptive_fields() {
    let cached = mod_record("skyrim", 8, "Keep Me", ModStatus::Published, "e1");
    let mut fetched = mod_record("skyrim", 8, "", ModStatus::Removed, "e2");
    fetched.summary = String::new();
    fetched.author = String::new();
    fetched.updated_time = "later".to_string();
    fetched.updated_timestamp = 99;
    let merged = cached.update(fetched);
    assert_eq!(merged.name, "Keep Me");
    assert_eq!(merged.summary, "summary of Keep Me");
    assert_eq!(merged.author, "Some Author");
    assert_eq!(merged.status, ModStatus::Removed);
    assert_eq!(merged.updated_time, "later");
    assert_eq!(merged.updated_timestamp, 99);
    assert_eq!(merged.etag, "e2");
}

#[test]
fn published_refresh_takes_every_field() {
    let cached = mod_record("skyrim", 9, "Old Name", ModStatus::Hidden, "e1");
    let mut fetched = mod_record("skyrim", 9, "New Name", ModStatus::Published, "e2");
    fetched.author = "New Author".to_string();
    fetched.version = "2.0".to_string();
    let merged = cached.update(fetched);
    assert_eq!(merged.name, "New Name");
    assert_eq!(merged.author, "New Author");
    assert_eq!(merged.version, "2.0");
    assert_eq!(merged.status, ModStatus::Published);
    assert_eq!(merged.etag, "e2");
}

#[test]
fn not_published_refresh_takes_every_field() {
    let cached = mod_record("skyrim", 9, "Old", ModStatus::Published, "e1");
    let fetched = mod_record("skyrim", 9, "Draft", ModStatus::NotPublished, "e3");
    let merged = cached.update(fetched);
    assert_eq!(merged.name, "Draft");
    assert_eq!(merged.status, ModStatus::NotPublished);
}

#[test]
fn hidden_and_moderated_refresh_keep_fields() {
    for status in [ModStatus::Hidden, ModStatus::UnderModeration] {
        let cached = mod_record("skyrim", 10, "Kept", ModStatus::Published, "e1");
        let fetched = mod_record("skyrim", 10, "", status, "e4");
        let merged = cached.update(fetched);
        assert_eq!(merged.name, "Kept");
        assert_eq!(merged.status, status);
        assert_eq!(merged.etag, "e4");
    }
}

#[test]
fn prefix_scan_lists_one_game_only() {
    let mut entries: Vec<(String, Option<ModInfoFull>)> = Vec::new();
    for id in [1u32, 2, 3] {
        let m = mod_record("skyrim", id, "s", ModStatus::Published, "");
        entries.push((CompoundKey::new("skyrim".to_string(), id).to_key_string(), Some(m)));
    }
    for id in [4u32, 5] {
        let m = mod_record("fallout4", id, "f", ModStatus::Published, "");
        entries.push((CompoundKey::new("fallout4".to_string(), id).to_key_string(), Some(m)));
    }
    let found = list_by_prefix(entries, "skyrim/");
    let ids: Vec<u32> = found.iter().map(|m| m.mod_id).collect();
    assert_eq!(ids, vec![1, 2, 3]);
}

#[test]
fn prefix_scan_skips_unreadable_records() {
    let entries: Vec<(String, Option<ModInfoFull>)> = vec![
        ("skyrim/1".to_string(), Some(mod_record("skyrim", 1, "a", ModStatus::Published, ""))),
        ("skyrim/2".to_string(), None),
        ("skyrim/3".to_string(), Some(mod_record("skyrim", 3, "c", ModStatus::Published, ""))),
    ];
    let found = list_by_prefix(entries, "skyrim/");
    let ids: Vec<u32> = found.iter().map(|m| m.mod_id).collect();
    assert_eq!(ids, vec![1, 3]);
}

#[test]
fn prefix_scan_of_empty_bucket_is_empty() {
    let entries: Vec<(String, Option<ModInfoFull>)> = Vec::new();
    assert!(list_by_prefix(entries, "skyrim/").is_empty());
}

#[test]
fn set_etag_replaces_etag_only() {
    let mut m = mod_record("skyrim", 11, "Foo", ModStatus::Published, "a");
    m.set_etag("b");
    assert_eq!(m.etag(), "b");
    assert_eq!(m.name, "Foo");
    assert_eq!(m.status, ModStatus::Published);
    assert_eq!(m.key_string(), "skyrim/11");
    assert_eq!(ModInfoFull::bucket_name(), "mods");
}
