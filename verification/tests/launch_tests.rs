use restore_sites::launch::{build_launch_command, Platform, ResolvedBrowserConfig};
use restore_sites::models::{Browser, BrowserMode, BrowserProfile};
use restore_sites::text::{i64_to_string, u64_to_string};

fn resolved(browser: Browser, mode: BrowserMode) -> ResolvedBrowserConfig {
    ResolvedBrowserConfig { browser, mode, custom_path: None }
}

#[test]
fn macos_incognito_chrome_command() {
    let cmd = build_launch_command(
        Platform::MacOs,
        &resolved(Browser::Chrome, BrowserMode::Incognito),
        "https://example.com",
    );
    assert_eq!(cmd.program, "open");
    assert_eq!(cmd.args, vec!["-na", "Google Chrome", "--args", "--incognito", "https://example.com"]);
}

#[test]
fn macos_private_safari_command() {
    let cmd = build_launch_command(
        Platform::MacOs,
        &resolved(Browser::Safari, BrowserMode::Private),
        "https://example.com",
    );
    assert_eq!(cmd.program, "open");
    assert_eq!(cmd.args, vec!["-na", "Safari", "--args", "--private", "https://example.com"]);
}

#[test]
fn windows_edge_incognito_command() {
    let cmd = build_launch_command(
        Platform::Windows,
        &resolved(Browser::Edge, BrowserMode::Incognito),
        "https://example.com",
    );
    assert_eq!(cmd.program, "msedge.exe");
    assert_eq!(cmd.args, vec!["--incognito", "https://example.com"]);
}

#[test]
fn linux_firefox_private_command() {
    let cmd = build_launch_command(
        Platform::Linux,
        &resolved(Browser::Firefox, BrowserMode::Private),
        "https://example.com",
    );
    assert_eq!(cmd.program, "firefox");
    assert_eq!(cmd.args, vec!["--private-window", "https://example.com"]);
}

#[test]
fn mode_without_a_flag_for_the_family_is_treated_as_normal() {
    let cmd = build_launch_command(
        Platform::Linux,
        &resolved(Browser::Chrome, BrowserMode::Private),
        "https://example.com",
    );
    assert_eq!(cmd.program, "/opt/google/chrome/chrome");
    assert_eq!(cmd.args, vec!["https://example.com"]);
}

#[test]
fn custom_browser_uses_its_path_as_the_program() {
    let cmd = build_launch_command(
        Platform::Linux,
        &resolved(Browser::Custom("/usr/local/bin/mybrowser".to_string()), BrowserMode::Normal),
        "https://example.com",
    );
    assert_eq!(cmd.program, "/usr/local/bin/mybrowser");
    assert_eq!(cmd.args, vec!["https://example.com"]);
}

#[test]
fn addresses_that_need_quoting_are_quoted() {
    let cmd = build_launch_command(
        Platform::Linux,
        &resolved(Browser::Chrome, BrowserMode::Normal),
        "https://example.com/a page",
    );
    assert_eq!(cmd.args, vec!["'https://example.com/a page'"]);
}

#[test]
fn profile_name_validation_bounds() {
    assert!(BrowserProfile::validate_name("x").is_ok());
    assert!(BrowserProfile::validate_name(&"y".repeat(64)).is_ok());
    assert!(BrowserProfile::validate_name("").is_err());
    assert!(BrowserProfile::validate_name(&"z".repeat(65)).is_err());
    let p = BrowserProfile::new(
        "id-1".to_string(),
        "Nice Name".to_string(),
        Browser::Firefox,
        BrowserMode::Private,
        77,
    )
    .expect("valid name");
    assert_eq!(p.created_at, 77);
    assert_eq!(p.updated_at, 77);
    assert!(!p.is_default);
    assert!(!p.is_detected);
}

#[test]
fn decimal_rendering_matches_expected_text() {
    assert_eq!(u64_to_string(0), "0");
    assert_eq!(u64_to_string(9), "9");
    assert_eq!(u64_to_string(1700000000), "1700000000");
    assert_eq!(i64_to_string(-42), "-42");
    assert_eq!(i64_to_string(i64::MIN), "-9223372036854775808");
}
