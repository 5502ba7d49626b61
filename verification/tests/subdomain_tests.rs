use decision_broker::subdomain::{extract_subdomain_from_url, sanitize_branch_for_subdomain};

#[test]
fn test_sanitize_branch_for_subdomain() {
    assert_eq!(sanitize_branch_for_subdomain("feature/auth"), "feature-auth");
    assert_eq!(sanitize_branch_for_subdomain("feature_auth"), "feature-auth");
    assert_eq!(sanitize_branch_for_subdomain("Feature/Auth"), "feature-auth");
    assert_eq!(sanitize_branch_for_subdomain("main"), "main");
    assert_eq!(sanitize_branch_for_subdomain("fix/bug-123"), "fix-bug-123");
    assert_eq!(sanitize_branch_for_subdomain("/leading-slash/"), "leading-slash");
}

#[test]
fn test_extract_subdomain_from_url() {
    assert_eq!(
        extract_subdomain_from_url("https://feature-auth.myapp.localhost"),
        Some("feature-auth".to_string())
    );
    assert_eq!(
        extract_subdomain_from_url("http://main.example.com"),
        Some("main".to_string())
    );
    assert_eq!(extract_subdomain_from_url("invalid-url"), None);
}

#[test]
fn sanitize_drops_punctuation_and_keeps_digits() {
    assert_eq!(sanitize_branch_for_subdomain("Fix issue #42!"), "fixissue42");
    assert_eq!(sanitize_branch_for_subdomain("--a--"), "a");
    assert_eq!(sanitize_branch_for_subdomain(""), "");
    assert_eq!(sanitize_branch_for_subdomain("___"), "");
}

#[test]
fn extract_subdomain_handles_bare_and_empty_hosts() {
    assert_eq!(extract_subdomain_from_url("https://"), Some(String::new()));
    assert_eq!(
        extract_subdomain_from_url("http://localhost"),
        Some("localhost".to_string())
    );
    assert_eq!(extract_subdomain_from_url("ftp://a.b"), None);
}
