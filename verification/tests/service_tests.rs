use restore_sites::launch::Platform;
use restore_sites::models::{
    Browser, BrowserMode, BrowserProfile, CollectionConfig, CollectionData, Database, SiteEntry,
    StoreError,
};
use restore_sites::services::{BrowserService, CollectionService, ProfileService};
use restore_sites::store::JsonStore;

fn empty_config() -> CollectionConfig {
    CollectionConfig { browser_profile_id: None, browser: None, mode: None, custom_path: None }
}

fn profile(id: &str, browser: Browser, mode: BrowserMode, is_default: bool) -> BrowserProfile {
    BrowserProfile {
        id: id.to_string(),
        name: format!("{} profile", id),
        browser,
        mode,
        custom_path: None,
        is_default,
        is_detected: false,
        created_at: 10,
        updated_at: 10,
    }
}

fn sites(urls: &[&str]) -> Vec<SiteEntry> {
    urls.iter().map(|u| SiteEntry { title: u.to_string(), url: u.to_string() }).collect()
}

#[test]
fn save_collection_uses_the_fallback_name() {
    let mut service = CollectionService::new(JsonStore::new(Database::fresh(0)));
    let saved = service.save_collection(
        CollectionData {
            sites: sites(&["https://example.com"]),
            created_at: 123,
            name: None,
            config: empty_config(),
        },
        1700000000,
    );
    assert_eq!(saved.name, "Collection 1700000000");
    assert_eq!(saved.id, 1);
    assert_eq!(saved.created_at, 123);
    assert_eq!(saved.updated_at, 1700000000);
}

#[test]
fn save_request_defaults_its_configuration() {
    let request = restore_sites::models::SaveCollectionRequest {
        sites: sites(&["https://example.com"]),
        name: Some("From Request".to_string()),
        config: None,
    };
    let data = restore_sites::models::collection_data_from_request(request, 55);
    assert_eq!(data.created_at, 55);
    assert_eq!(data.name, Some("From Request".to_string()));
    assert!(data.config.browser_profile_id.is_none());
    assert!(data.config.browser.is_none());
    assert!(data.config.mode.is_none());
    assert!(data.config.custom_path.is_none());
}

#[test]
fn update_collection_preserves_creation_and_name_when_omitted() {
    let mut service = CollectionService::new(JsonStore::new(Database::fresh(0)));
    let saved = service.save_collection(
        CollectionData {
            sites: sites(&["https://example.com"]),
            created_at: 5,
            name: Some("Keep Me".to_string()),
            config: empty_config(),
        },
        6,
    );
    let updated = service
        .update_collection(
            saved.id,
            CollectionData {
                sites: sites(&["https://example.com/more"]),
                created_at: 999,
                name: None,
                config: empty_config(),
            },
            7,
        )
        .expect("record exists");
    assert_eq!(updated.name, "Keep Me");
    assert_eq!(updated.created_at, 5);
    assert_eq!(updated.updated_at, 7);
    assert!(matches!(
        service.update_collection(
            1234,
            CollectionData {
                sites: vec![],
                created_at: 0,
                name: None,
                config: empty_config(),
            },
            8,
        ),
        Err(StoreError::NotFound)
    ));
}

#[test]
fn create_profile_rejects_duplicate_ids() {
    let mut service = ProfileService::new(JsonStore::new(Database::fresh(0)));
    service
        .create_profile(profile("work", Browser::Firefox, BrowserMode::Private, false), 20)
        .expect("fresh id");
    assert!(matches!(
        service.create_profile(profile("work", Browser::Chrome, BrowserMode::Normal, false), 21),
        Err(StoreError::AlreadyExists)
    ));
}

#[test]
fn resolver_prefers_the_default_profile_over_the_global_mode() {
    let mut service = ProfileService::new(JsonStore::new(Database::fresh(0)));
    service
        .create_profile(profile("everyday", Browser::Firefox, BrowserMode::Private, true), 30)
        .unwrap();
    let resolved = service.resolve_browser_config(&empty_config());
    assert!(matches!(resolved.browser, Browser::Firefox));
    assert_eq!(resolved.mode, BrowserMode::Private);
    assert_eq!(resolved.custom_path, None);
}

#[test]
fn resolver_prefers_a_profile_reference_over_the_default_profile() {
    let mut service = ProfileService::new(JsonStore::new(Database::fresh(0)));
    service
        .create_profile(profile("everyday", Browser::Firefox, BrowserMode::Private, true), 40)
        .unwrap();
    service
        .create_profile(profile("focus", Browser::Chrome, BrowserMode::Incognito, false), 41)
        .unwrap();
    let config = CollectionConfig {
        browser_profile_id: Some("focus".to_string()),
        browser: None,
        mode: None,
        custom_path: None,
    };
    let resolved = service.resolve_browser_config(&config);
    assert!(matches!(resolved.browser, Browser::Chrome));
    assert_eq!(resolved.mode, BrowserMode::Incognito);
}

#[test]
fn resolver_uses_the_inline_override_and_defaults_its_mode() {
    let service = ProfileService::new(JsonStore::new(Database::fresh(0)));
    let config = CollectionConfig {
        browser_profile_id: None,
        browser: Some(Browser::Edge),
        mode: None,
        custom_path: Some("/opt/edge".to_string()),
    };
    let resolved = service.resolve_browser_config(&config);
    assert!(matches!(resolved.browser, Browser::Edge));
    assert_eq!(resolved.mode, BrowserMode::Normal);
    assert_eq!(resolved.custom_path, Some("/opt/edge".to_string()));
}

#[test]
fn resolver_falls_back_to_chrome_under_the_global_mode() {
    let mut store = JsonStore::new(Database::fresh(0));
    store.set_default_browser_mode(BrowserMode::Private, 50);
    let service = ProfileService::new(store);
    let resolved = service.resolve_browser_config(&empty_config());
    assert!(matches!(resolved.browser, Browser::Chrome));
    assert_eq!(resolved.mode, BrowserMode::Private);
    assert_eq!(resolved.custom_path, None);
}

#[test]
fn resolver_falls_through_a_dangling_profile_reference() {
    let mut service = ProfileService::new(JsonStore::new(Database::fresh(0)));
    service
        .create_profile(profile("everyday", Browser::Firefox, BrowserMode::Private, true), 60)
        .unwrap();
    let config = CollectionConfig {
        browser_profile_id: Some("missing".to_string()),
        browser: None,
        mode: None,
        custom_path: None,
    };
    let resolved = service.resolve_browser_config(&config);
    assert!(matches!(resolved.browser, Browser::Firefox));
    assert_eq!(resolved.mode, BrowserMode::Private);
}

#[test]
fn detection_sweep_stamps_only_changed_profiles() {
    let mut service = ProfileService::new(JsonStore::new(Database::fresh(0)));
    service
        .create_profile(profile("a", Browser::Chrome, BrowserMode::Normal, false), 70)
        .unwrap();
    service
        .create_profile(profile("b", Browser::Firefox, BrowserMode::Normal, false), 71)
        .unwrap();
    let updated = service.update_all_detection_status(&vec![true, false], 80);
    assert_eq!(updated.len(), 2);
    assert!(updated[0].is_detected);
    assert_eq!(updated[0].updated_at, 80);
    assert!(!updated[1].is_detected);
    assert_eq!(updated[1].updated_at, 10);
}

#[test]
fn restore_plans_one_command_per_site_and_attempts_them_all() {
    let mut profiles = ProfileService::new(JsonStore::new(Database::fresh(0)));
    profiles
        .create_profile(profile("everyday", Browser::Chrome, BrowserMode::Incognito, true), 90)
        .unwrap();
    let list = sites(&["https://one.example", "https://two.example", "https://three.example"]);
    let plan = BrowserService::restore_sites_with_config(
        &profiles,
        &list,
        &empty_config(),
        Platform::Linux,
    );
    assert_eq!(plan.commands.len(), 3);
    assert_eq!(plan.delay_ms, 500);

    // Simulate the application's loop with the second launch failing: every
    // site is still attempted, and the run as a whole still completes.
    let mut progress = restore_sites::launch::restore_start();
    let mut previous_failed = false;
    let mut attempted = Vec::new();
    loop {
        let (cmd, next) = restore_sites::launch::restore_next(&plan, progress, previous_failed);
        progress = next;
        match cmd {
            Some(c) => {
                previous_failed = attempted.len() == 1;
                attempted.push(c.program.clone());
            }
            None => break,
        }
    }
    assert_eq!(attempted.len(), 3);
    assert!(attempted.iter().all(|p| p == "/opt/google/chrome/chrome"));
}

#[test]
fn restore_with_empty_site_list_plans_nothing() {
    let profiles = ProfileService::new(JsonStore::new(Database::fresh(0)));
    let plan = BrowserService::restore_sites(&profiles, &vec![], Platform::MacOs);
    assert!(plan.commands.is_empty());
}
