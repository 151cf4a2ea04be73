use modcache::cache::Cacheable;
use modcache::endorsement::{EndorsementList, EndorsementStatus, UserEndorsement};
use modcache::endpoints;
use modcache::files::{FileInfo, Files};
use modcache::game::{GameMetadata, ModCategory};
use modcache::modinfo::{ModAuthor, ModInfoFull, ModStatus};
use modcache::selection::{reference_ids, retain_following, tracked_report, untrack_candidates, PopulateRun};
use modcache::sorting::{SortByKey, SortKey};
use modcache::tracking::{ModReference, TrackedList};

fn mod_record(domain: &str, id: u32, name: &str, status: ModStatus) -> ModInfoFull {
    ModInfoFull {
        domain_name: domain.to_string(),
        mod_id: id,
        name: name.to_string(),
        summary: String::new(),
        picture_url: None,
        version: "1".to_string(),
        author: String::new(),
        uploaded_by: format!("up-{}", name),
        user: ModAuthor { member_group_id: 0, member_id: 0, name: String::new() },
        uploaded_users_profile_url: String::new(),
        description: String::new(),
        created_time: String::new(),
        created_timestamp: 0,
        updated_time: String::new(),
        updated_timestamp: 1000 - id as u64,
        available: true,
        status,
        allow_rating: false,
        category_id: (id % 3) as u16,
        contains_adult_content: false,
        endorsement: None,
        endorsement_count: 0,
        game_id: 1,
        uid: id as u64,
        etag: String::new(),
    }
}

fn file(id: usize, category: u32, uploaded: usize, primary: bool) -> FileInfo {
    FileInfo {
        category_id: category,
        category_name: None,
        changelog_html: None,
        content_preview_link: String::new(),
        description: String::new(),
        external_virus_scan_url: String::new(),
        file_id: id,
        file_name: format!("file{}.7z", id),
        id: vec![id, 1704],
        is_primary: primary,
        mod_version: "1".to_string(),
        name: format!("File {}", id),
        size_in_bytes: 10,
        size_kb: 1,
        size: 1,
        uploaded_time: String::new(),
        uploaded_timestamp: uploaded,
        uuid: None,
        version: "1".to_string(),
    }
}

fn tracked_list() -> TrackedList {
    let refs = [("skyrim", 1u32), ("fallout4", 2), ("skyrim", 3), ("oblivion", 4), ("fallout4", 5)];
    TrackedList {
        mods: refs
            .iter()
            .map(|(d, id)| ModReference { domain_name: d.to_string(), mod_id: *id })
            .collect(),
        etag: "t".to_string(),
    }
}

fn endorsement(domain: &str, id: u32, status: EndorsementStatus) -> UserEndorsement {
    UserEndorsement {
        date: 1,
        domain_name: domain.to_string(),
        mod_id: id,
        status,
        version: "1.0".to_string(),
    }
}

#[test]
fn tracked_grouped_by_game_in_first_order() {
    let t = tracked_list();
    let map = t.get_game_map();
    let names: Vec<&str> = map.iter().map(|(g, _)| g.as_str()).collect();
    assert_eq!(names, vec!["skyrim", "fallout4", "oblivion"]);
    assert_eq!(map[0].1, vec![1, 3]);
    assert_eq!(map[1].1, vec![2, 5]);
    assert_eq!(map[2].1, vec![4]);
}

#[test]
fn tracked_by_game_filters() {
    let t = tracked_list();
    let ids: Vec<u32> = t.by_game("fallout4").iter().map(|m| m.mod_id).collect();
    assert_eq!(ids, vec![2, 5]);
    assert!(t.by_game("morrowind").is_empty());
    assert_eq!(reference_ids(&t.by_game("skyrim")), vec![1, 3]);
    assert_eq!(TrackedList::listkey(), "tracked");
    assert_eq!(t.key_string(), "tracked");
    assert_eq!(TrackedList::bucket_name(), "mod_ref_lists");
}

#[test]
fn empty_tracked_list_has_no_games() {
    let t = TrackedList { mods: Vec::new(), etag: String::new() };
    assert!(t.get_game_map().is_empty());
}

#[test]
fn endorsements_grouped_and_filtered() {
    let list = EndorsementList {
        mods: vec![
            endorsement("skyrim", 1, EndorsementStatus::Endorsed),
            endorsement("fallout4", 2, EndorsementStatus::Abstained),
            endorsement("skyrim", 3, EndorsementStatus::Undecided),
        ],
        etag: String::new(),
    };
    let map = list.get_game_map();
    assert_eq!(map.len(), 2);
    assert_eq!(map[0].0, "skyrim");
    assert_eq!(map[0].1.iter().map(|e| e.mod_id()).collect::<Vec<_>>(), vec![1, 3]);
    assert_eq!(map[1].1[0].status(), &EndorsementStatus::Abstained);
    let sky: Vec<u32> = list.by_game("skyrim".to_string()).iter().map(|e| e.mod_id).collect();
    assert_eq!(sky, vec![1, 3]);
    assert_eq!(EndorsementList::listkey(), "endorsements");
}

#[test]
fn endorsement_marks_and_url() {
    assert_eq!(EndorsementStatus::Endorsed.display_for_tracked(), "👍🏻");
    assert_eq!(EndorsementStatus::Undecided.display_for_tracked(), "");
    assert_eq!(EndorsementStatus::Abstained.display_for_tracked(), "🚫");
    let e = endorsement("skyrimspecialedition", 266, EndorsementStatus::Endorsed);
    assert_eq!(e.url(), "https://www.nexusmods.com/skyrimspecialedition/mods/266");
}

#[test]
fn sort_key_names() {
    assert_eq!(SortKey::parse("name"), SortKey::Name);
    assert_eq!(SortKey::parse("NAME"), SortKey::Name);
    assert_eq!(SortKey::parse("Date"), SortKey::Date);
    assert_eq!(SortKey::parse("author"), SortKey::Author);
    assert_eq!(SortKey::parse("id"), SortKey::Id);
    assert_eq!(SortKey::parse("whatever"), SortKey::Id);
}

#[test]
fn sort_mods_by_each_key() {
    let base = vec![
        mod_record("g", 3, "banana", ModStatus::Published),
        mod_record("g", 1, "Cherry", ModStatus::Published),
        mod_record("g", 2, "apple", ModStatus::Published),
    ];
    let mut v = base.clone();
    v.sort(&SortKey::Id);
    assert_eq!(v.iter().map(|m| m.mod_id).collect::<Vec<_>>(), vec![1, 2, 3]);
    let mut v = base.clone();
    SortByKey::sort(&mut v, &SortKey::Name);
    assert_eq!(v.iter().map(|m| m.name.as_str()).collect::<Vec<_>>(), vec!["apple", "banana", "Cherry"]);
    let mut v = base.clone();
    SortByKey::sort(&mut v, &SortKey::Date);
    assert_eq!(v.iter().map(|m| m.mod_id).collect::<Vec<_>>(), vec![3, 2, 1]);
    let mut v = base.clone();
    SortByKey::sort(&mut v, &SortKey::Author);
    assert_eq!(v.iter().map(|m| m.mod_id).collect::<Vec<_>>(), vec![2, 3, 1]);
}

fn game() -> GameMetadata {
    GameMetadata {
        approved_date: 0,
        authors: 1,
        categories: vec![
            ModCategory { category_id: 1, name: "Armour".to_string(), parent_category: None },
            ModCategory { category_id: 2, name: "Weapons".to_string(), parent_category: Some(1) },
            ModCategory { category_id: 1, name: "Armor".to_string(), parent_category: None },
        ],
        domain_name: "skyrim".to_string(),
        downloads: 0,
        file_count: 0,
        file_endorsements: 0,
        file_views: 0,
        forum_url: String::new(),
        genre: "RPG".to_string(),
        id: 110,
        mods: 3,
        name: "Skyrim".to_string(),
        nexusmods_url: String::new(),
        etag: String::new(),
    }
}

fn scan() -> Vec<(String, Option<ModInfoFull>)> {
    vec![
        ("skyrim/5".to_string(), Some(mod_record("skyrim", 5, "zeta", ModStatus::Hidden))),
        ("skyrim/2".to_string(), Some(mod_record("skyrim", 2, "Alpha", ModStatus::Removed))),
        ("skyrimse/9".to_string(), Some(mod_record("skyrimse", 9, "other", ModStatus::Hidden))),
        ("skyrim/4".to_string(), Some(mod_record("skyrim", 4, "beta", ModStatus::Hidden))),
        ("skyrim/6".to_string(), None),
    ]
}

#[test]
fn game_categories() {
    let g = game();
    assert_eq!(g.category_from_id(1).map(|c| c.name), Some("Armor".to_string()));
    assert_eq!(g.category_from_id(2).map(|c| c.name().to_string()), Some("Weapons".to_string()));
    assert!(g.category_from_id(9).is_none());
    assert_eq!(g.name(), "Skyrim");
    assert_eq!(g.key_string(), "skyrim");
}

#[test]
fn game_mod_listings() {
    let g = game();
    let names: Vec<String> = g.mods(scan()).iter().map(|m| m.name.clone()).collect();
    assert_eq!(names, vec!["Alpha", "beta", "zeta"]);
    let hidden: Vec<u32> = g.mods_hidden(scan()).iter().map(|m| m.mod_id).collect();
    assert_eq!(hidden, vec![4, 5]);
    let removed: Vec<u32> = g.mods_removed(scan()).iter().map(|m| m.mod_id).collect();
    assert_eq!(removed, vec![2]);
    assert!(g.mods_wastebinned(scan()).is_empty());
}

#[test]
fn current_files_newest_first() {
    let fs = Files {
        domain_name: "skyrim".to_string(),
        mod_id: 1,
        etag: String::new(),
        files: vec![file(1, 1, 100, false), file(2, 7, 300, false), file(3, 1, 200, true), file(4, 2, 50, false)],
        file_updates: Vec::new(),
    };
    let ids: Vec<usize> = fs.current_files().iter().map(|f| f.file_id).collect();
    assert_eq!(ids, vec![3, 1, 4]);
    assert_eq!(fs.file_by_id(2).map(|f| f.file_id), Some(2));
    assert!(fs.file_by_id(99).is_none());
    assert_eq!(fs.primary_file().map(|f| f.file_id), Some(3));
    assert_eq!(fs.files().len(), 4);
    assert_eq!(fs.key_string(), "skyrim/1");
}

#[test]
fn no_primary_file() {
    let fs = Files {
        domain_name: "g".to_string(),
        mod_id: 2,
        etag: String::new(),
        files: vec![file(1, 1, 1, false)],
        file_updates: Vec::new(),
    };
    assert!(fs.primary_file().is_none());
}

#[test]
fn endpoint_paths() {
    assert_eq!(endpoints::validate_uri(), "https://api.nexusmods.com/v1/users/validate.json");
    assert_eq!(endpoints::game_uri("skyrim"), "https://api.nexusmods.com/v1/games/skyrim.json");
    assert_eq!(endpoints::mod_uri("skyrim", 12), "https://api.nexusmods.com/v1/games/skyrim/mods/12.json");
    assert_eq!(
        endpoints::changelogs_uri("skyrim", 12),
        "https://api.nexusmods.com/v1/games/skyrim/mods/12/changelogs.json"
    );
    assert_eq!(endpoints::files_uri("skyrim", 12), "https://api.nexusmods.com/v1/games/skyrim/mods/12/files.json");
    assert_eq!(
        endpoints::file_info_uri("skyrim", 12, "77"),
        "https://api.nexusmods.com/v1/games/skyrim/12/files/77.json"
    );
    assert_eq!(endpoints::tracked_uri(), "https://api.nexusmods.com/v1/user/tracked_mods.json");
    assert_eq!(
        endpoints::track_uri("skyrim"),
        "https://api.nexusmods.com/v1/user/tracked_mods.json?domain_name=skyrim"
    );
    assert_eq!(endpoints::endorsements_uri(), "https://api.nexusmods.com/v1/user/endorsements.json");
    assert_eq!(endpoints::endorse_uri("g", 1), "https://api.nexusmods.com/v1/games/g/mods/1/endorse.json");
    assert_eq!(endpoints::abstain_uri("g", 1), "https://api.nexusmods.com/v1/games/g/mods/1/abstain.json");
    assert_eq!(endpoints::trending_uri("g"), "https://api.nexusmods.com/v1/games/g/mods/trending.json");
    assert_eq!(endpoints::latest_added_uri("g"), "https://api.nexusmods.com/v1/games/g/mods/latest_added.json");
    assert_eq!(
        endpoints::latest_updated_uri("g"),
        "https://api.nexusmods.com/v1/games/g/mods/latest_updated.json"
    );
}

#[test]
fn following_and_untrack_choices() {
    let mods = vec![
        mod_record("g", 1, "a", ModStatus::Removed),
        mod_record("g", 2, "b", ModStatus::Removed),
        mod_record("g", 3, "c", ModStatus::Removed),
    ];
    let following = vec![3, 1, 9];
    assert_eq!(untrack_candidates(&mods, &following), vec![1, 3]);
    let kept: Vec<u32> = retain_following(mods, &following).iter().map(|m| m.mod_id).collect();
    assert_eq!(kept, vec![1, 3]);
}

#[test]
fn populate_stops_at_limit() {
    let mut run = PopulateRun::new(2);
    assert!(run.needs_fetch(false));
    assert!(!run.needs_fetch(true));
    assert!(run.after_item(false));
    assert!(run.after_item(true));
    assert!(!run.after_item(true));
    assert_eq!(run.fetches, 2);
    let mut zero = PopulateRun::new(0);
    assert!(!zero.after_item(false));
}

#[test]
fn tracked_report_sorts_mods() {
    let found = vec![
        Some(mod_record("g", 1, "a", ModStatus::Published)),
        None,
        Some(mod_record("g", 2, "b", ModStatus::Wastebinned)),
        Some(mod_record("g", 4, "d", ModStatus::Published)),
        Some(mod_record("g", 5, "e", ModStatus::Removed)),
        Some(mod_record("g", 6, "f", ModStatus::UnderModeration)),
        Some(mod_record("g", 7, "g", ModStatus::Hidden)),
        None,
    ];
    let r = tracked_report(found);
    assert_eq!(r.uncached, 2);
    assert_eq!(r.wasted.iter().map(|m| m.mod_id).collect::<Vec<_>>(), vec![2]);
    assert_eq!(r.removed.iter().map(|m| m.mod_id).collect::<Vec<_>>(), vec![5]);
    assert_eq!(r.moderated.iter().map(|m| m.mod_id).collect::<Vec<_>>(), vec![6]);
    let cats: Vec<(u16, Vec<u32>)> =
        r.by_category.iter().map(|(c, ms)| (*c, ms.iter().map(|m| m.mod_id).collect())).collect();
    assert_eq!(cats, vec![(1, vec![1, 4, 7])]);
}

#[test]
fn name_search_is_case_insensitive() {
    let g = game();
    let found = g.mods_name_match("ZE", scan()).expect("valid pattern");
    assert_eq!(found.iter().map(|m| m.mod_id).collect::<Vec<_>>(), vec![5]);
    let all = g.mods_name_match("^(alpha|beta)$", scan()).expect("valid pattern");
    assert_eq!(all.iter().map(|m| m.mod_id).collect::<Vec<_>>(), vec![2, 4]);
}

#[test]
fn invalid_search_pattern_is_refused() {
    let g = game();
    assert!(g.mods_name_match("(", scan()).is_none());
    assert!(g.mods_match_text("[", scan()).is_none());
}

#[test]
fn text_search_reads_uploader_and_sorts_by_name() {
    let g = game();
    let found = g.mods_match_text("UP-", scan()).expect("valid pattern");
    assert_eq!(found.iter().map(|m| m.name.as_str()).collect::<Vec<_>>(), vec!["Alpha", "beta", "zeta"]);
    let none = g.mods_match_text("nomatch", scan()).expect("valid pattern");
    assert!(none.is_empty());
}

#[test]
fn tracked_report_orders_categories_and_ids() {
    // categories are id % 3
    let found = vec![
        Some(mod_record("g", 8, "h", ModStatus::Published)),
        Some(mod_record("g", 4, "d", ModStatus::NotPublished)),
        Some(mod_record("g", 2, "b", ModStatus::Published)),
        Some(mod_record("g", 1, "a", ModStatus::Hidden)),
        Some(mod_record("g", 6, "f", ModStatus::Published)),
    ];
    let r = tracked_report(found);
    let cats: Vec<(u16, Vec<u32>)> =
        r.by_category.iter().map(|(c, ms)| (*c, ms.iter().map(|m| m.mod_id).collect())).collect();
    assert_eq!(cats, vec![(0, vec![6]), (1, vec![1, 4]), (2, vec![2, 8])]);
    assert_eq!(r.uncached, 0);
}

#[test]
fn tracked_report_of_nothing_cached() {
    let r = tracked_report(vec![None, None, None]);
    assert_eq!(r.uncached, 3);
    assert!(r.by_category.is_empty());
    assert!(r.wasted.is_empty() && r.removed.is_empty() && r.moderated.is_empty());
}

#[test]
fn sorts_keep_order_of_equal_keys() {
    let mut a = mod_record("g", 1, "same", ModStatus::Published);
    let mut b = mod_record("g", 2, "SAME", ModStatus::Published);
    let c = mod_record("g", 3, "Same", ModStatus::Published);
    a.updated_timestamp = 5;
    b.updated_timestamp = 5;
    let mut v = vec![c.clone(), a.clone(), b.clone()];
    SortByKey::sort(&mut v, &SortKey::Name);
    assert_eq!(v.iter().map(|m| m.mod_id).collect::<Vec<_>>(), vec![3, 1, 2]);
    let mut v = vec![b, c, a];
    SortByKey::sort(&mut v, &SortKey::Date);
    // c was updated at 1000 - 3; a and b tie at 5 and keep their order
    assert_eq!(v.iter().map(|m| m.mod_id).collect::<Vec<_>>(), vec![2, 1, 3]);
}

#[test]
fn current_files_ties_in_reverse_list_order() {
    let fs = Files {
        domain_name: "g".to_string(),
        mod_id: 1,
        etag: String::new(),
        files: vec![file(1, 1, 100, false), file(2, 1, 100, false), file(3, 1, 200, false)],
        file_updates: Vec::new(),
    };
    let ids: Vec<usize> = fs.current_files().iter().map(|f| f.file_id).collect();
    assert_eq!(ids, vec![3, 2, 1]);
}

#[test]
fn fetched_records_take_their_key() {
    let mut fs = Files {
        domain_name: String::new(),
        mod_id: 0,
        etag: "e".to_string(),
        files: vec![file(1, 1, 1, true)],
        file_updates: Vec::new(),
    };
    fs.assign_key(&modcache::key::CompoundKey::new("skyrim".to_string(), 99));
    assert_eq!(fs.key_string(), "skyrim/99");
    assert_eq!(fs.etag(), "e");
    assert_eq!(fs.files().len(), 1);
    let mut logs = modcache::changelogs::Changelogs {
        domain_name: String::new(),
        mod_id: 0,
        etag: String::new(),
        versions: std::collections::HashMap::new(),
    };
    logs.assign_key(&modcache::key::CompoundKey::new("fallout4".to_string(), 7));
    assert_eq!(logs.key_string(), "fallout4/7");
}
