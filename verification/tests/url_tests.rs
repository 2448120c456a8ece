use restore_sites::utils::{clean_url, extract_domain, is_valid_url};

#[test]
fn test_is_valid_url() {
    assert!(is_valid_url("https://example.com"));
    assert!(is_valid_url("http://example.com"));
    assert!(!is_valid_url("example.com"));
    assert!(!is_valid_url("ftp://example.com"));
}

#[test]
fn test_clean_url() {
    assert_eq!(clean_url("https://example.com"), Some("https://example.com".to_string()));
    assert_eq!(clean_url("www.example.com"), Some("https://www.example.com".to_string()));
    assert_eq!(clean_url("example.com"), Some("https://example.com".to_string()));
    assert_eq!(clean_url(""), None);
    assert_eq!(clean_url("not-a-url"), None);
}

#[test]
fn test_extract_domain() {
    assert_eq!(extract_domain("https://www.example.com/path"), "www.example.com");
    assert_eq!(extract_domain("http://example.com"), "example.com");
    assert_eq!(
        extract_domain("https://subdomain.example.com/path?query=1"),
        "subdomain.example.com"
    );
}

#[test]
fn test_clean_url_trims_whitespace() {
    assert_eq!(clean_url("  https://example.com  "), Some("https://example.com".to_string()));
    assert_eq!(clean_url("\t www.example.com \n"), Some("https://www.example.com".to_string()));
    assert_eq!(clean_url("   "), None);
}

#[test]
fn test_extract_domain_fallback_without_protocol() {
    assert_eq!(extract_domain("www.example.com/path"), "example.com".to_string());
    assert_eq!(extract_domain("example.com"), "example.com".to_string());
}
