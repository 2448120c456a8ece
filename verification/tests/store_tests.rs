use restore_sites::models::{
    Browser, BrowserMode, BrowserProfile, CollectionConfig, CollectionRecord, Database, SiteEntry,
    StoreError,
};
use restore_sites::store::JsonStore;

fn empty_config() -> CollectionConfig {
    CollectionConfig { browser_profile_id: None, browser: None, mode: None, custom_path: None }
}

fn record(name: &str, urls: &[&str]) -> CollectionRecord {
    CollectionRecord {
        id: 0,
        name: name.to_string(),
        sites: urls
            .iter()
            .map(|u| SiteEntry { title: format!("tab {}", u), url: u.to_string() })
            .collect(),
        config: empty_config(),
        created_at: 100,
        updated_at: 100,
    }
}

fn fresh_store() -> JsonStore {
    JsonStore::new(Database::fresh(50))
}

#[test]
fn insert_then_get_returns_the_stored_record() {
    let mut store = fresh_store();
    let stored = store.insert(record("Work Tabs", &["https://example.com"]), 200);
    assert_eq!(stored.id, 1);
    assert_eq!(stored.updated_at, 200);
    assert_eq!(stored.created_at, 100);
    let fetched = store.get_by_id(stored.id).expect("inserted record must be found");
    assert_eq!(fetched.id, stored.id);
    assert_eq!(fetched.name, "Work Tabs");
    assert_eq!(fetched.updated_at, 200);
    assert_eq!(fetched.sites.len(), 1);
    assert_eq!(fetched.sites[0].url, "https://example.com");
}

#[test]
fn identities_increase_even_across_deletes() {
    let mut store = fresh_store();
    let a = store.insert(record("a", &[]), 201);
    let b = store.insert(record("b", &[]), 202);
    let c = store.insert(record("c", &[]), 203);
    assert_eq!((a.id, b.id, c.id), (1, 2, 3));
    assert!(store.delete_by_id(b.id, 204));
    let d = store.insert(record("d", &[]), 205);
    assert_eq!(d.id, 4);
    let ids: Vec<u64> = store.get_all().iter().map(|r| r.id).collect();
    assert_eq!(ids, vec![1, 3, 4]);
}

#[test]
fn delete_absent_and_present() {
    let mut store = fresh_store();
    assert!(!store.delete_by_id(7, 300));
    let stored = store.insert(record("gone soon", &[]), 301);
    assert!(store.delete_by_id(stored.id, 302));
    assert!(store.get_by_id(stored.id).is_none());
    assert!(!store.delete_by_id(stored.id, 303));
}

#[test]
fn update_absent_fails_update_present_keeps_position() {
    let mut store = fresh_store();
    let missing = record("nobody", &[]);
    let mut with_id = missing;
    with_id.id = 42;
    assert!(matches!(store.update(with_id, 400), Err(StoreError::NotFound)));

    let first = store.insert(record("first", &["https://one.example"]), 401);
    let second = store.insert(record("second", &["https://two.example"]), 402);
    let third = store.insert(record("third", &[]), 403);

    let mut replacement = record("second, renewed", &["https://two.example/new"]);
    replacement.id = second.id;
    replacement.created_at = second.created_at;
    let updated = store.update(replacement, 500).expect("record exists");
    assert_eq!(updated.id, second.id);
    assert_eq!(updated.updated_at, 500);
    assert_eq!(updated.created_at, second.created_at);

    let all = store.get_all();
    let names: Vec<&str> = all.iter().map(|r| r.name.as_str()).collect();
    assert_eq!(names, vec!["first", "second, renewed", "third"]);
    assert_eq!(all[0].id, first.id);
    assert_eq!(all[2].id, third.id);
}

#[test]
fn search_by_name_is_a_case_insensitive_substring_match() {
    let mut store = fresh_store();
    store.insert(record("Work Tabs", &[]), 600);
    store.insert(record("Play time", &[]), 601);
    store.insert(record("homework", &[]), 602);
    let hits = store.search_by_name("WORK");
    let names: Vec<&str> = hits.iter().map(|r| r.name.as_str()).collect();
    assert_eq!(names, vec!["Work Tabs", "homework"]);
    assert!(store.search_by_name("absent").is_empty());
}

#[test]
fn import_merge_skips_taken_names_and_assigns_fresh_ids() {
    let mut store = fresh_store();
    store.insert(record("Work Tabs", &[]), 700);

    let mut incoming = Database::fresh(0);
    let mut colliding = record("work tabs", &["https://collide.example"]);
    colliding.id = 99;
    let mut fresh = record("Evening Reading", &["https://fresh.example"]);
    fresh.id = 98;
    incoming.data.push(colliding);
    incoming.data.push(fresh);

    let count = store.import_document(incoming, false, 800);
    assert_eq!(count, 1);
    let all = store.get_all();
    assert_eq!(all.len(), 2);
    assert_eq!(all[0].name, "Work Tabs");
    assert_eq!(all[1].name, "Evening Reading");
    assert_eq!(all[1].id, 2);
    assert_eq!(all[1].updated_at, 800);
    assert!(all.iter().all(|r| r.name != "work tabs"));
}

#[test]
fn import_merge_checks_names_against_records_taken_earlier_in_the_same_import() {
    let mut store = fresh_store();
    let mut incoming = Database::fresh(0);
    incoming.data.push(record("Evening Reading", &[]));
    incoming.data.push(record("EVENING reading", &[]));
    let count = store.import_document(incoming, false, 810);
    assert_eq!(count, 1);
    assert_eq!(store.get_all().len(), 1);
}

#[test]
fn import_merge_does_not_touch_profiles() {
    let mut store = fresh_store();
    let mut incoming = Database::fresh(0);
    incoming.profiles.push(BrowserProfile {
        id: "incoming".to_string(),
        name: "Incoming".to_string(),
        browser: Browser::Firefox,
        mode: BrowserMode::Private,
        custom_path: None,
        is_default: false,
        is_detected: false,
        created_at: 0,
        updated_at: 0,
    });
    incoming.data.push(record("with profile", &[]));
    let count = store.import_document(incoming, false, 820);
    assert_eq!(count, 1);
    assert!(store.get_all_profiles().is_empty());
}

#[test]
fn import_replace_discards_prior_content() {
    let mut store = fresh_store();
    store.insert(record("old one", &[]), 900);
    store.insert(record("old two", &[]), 901);

    let mut incoming = Database::fresh(10);
    for (i, name) in ["x", "y", "z"].iter().enumerate() {
        let mut r = record(name, &[]);
        r.id = (i + 1) as u64;
        incoming.data.push(r);
    }
    incoming.meta.max_id = 3;
    incoming.meta.record_count = 3;

    let count = store.import_document(incoming, true, 902);
    assert_eq!(count, 3);
    let all = store.get_all();
    let names: Vec<&str> = all.iter().map(|r| r.name.as_str()).collect();
    assert_eq!(names, vec!["x", "y", "z"]);
}

#[test]
fn export_then_replace_import_round_trips() {
    let mut store = fresh_store();
    store.insert(record("alpha", &["https://a.example"]), 1000);
    store.insert(record("beta", &["https://b.example"]), 1001);

    let exported = store.export_document();
    let count = store.import_document(exported, true, 1002);
    assert_eq!(count, 2);

    let all = store.get_all();
    assert_eq!(all.len(), 2);
    assert_eq!(all[0].name, "alpha");
    assert_eq!(all[0].id, 1);
    assert_eq!(all[1].name, "beta");
    assert_eq!(all[1].id, 2);
    let doc = store.export_document();
    assert_eq!(doc.meta.record_count, 2);
    assert_eq!(doc.meta.max_id, 2);
}

#[test]
fn default_mode_starts_incognito_and_can_be_set() {
    let mut store = fresh_store();
    assert_eq!(store.get_default_browser_mode(), BrowserMode::Incognito);
    store.set_default_browser_mode(BrowserMode::Private, 1100);
    assert_eq!(store.get_default_browser_mode(), BrowserMode::Private);
}

#[test]
fn custom_browser_round_trips_through_the_store() {
    let mut store = fresh_store();
    let mut rec = record("custom", &[]);
    rec.config.browser = Some(Browser::Custom("/usr/bin/mybrowser".to_string()));
    rec.config.mode = Some(BrowserMode::Normal);
    let stored = store.insert(rec, 1200);
    let fetched = store.get_by_id(stored.id).unwrap();
    match fetched.config.browser {
        Some(Browser::Custom(path)) => assert_eq!(path, "/usr/bin/mybrowser"),
        other => panic!("wrong browser kind: {:?}", other),
    }
}
