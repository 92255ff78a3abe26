use stoat_components::links::invite_code;
use stoat_components::markdown::inline::is_http_url;

#[test]
fn invite_links_are_recognised() {
    assert_eq!(invite_code("https://stoat.chat/invite/Testers"), Some("Testers".to_string()));
    assert_eq!(invite_code("https://stt.gg/Testers"), Some("Testers".to_string()));
    assert_eq!(invite_code("https://stoat.chat/channel/abc"), None);
    assert_eq!(invite_code("https://example.com/invite/x"), None);
    assert_eq!(invite_code("not a url"), None);
}

#[test]
fn http_urls() {
    assert!(is_http_url("https://example.com"));
    assert!(is_http_url("HTTP://example.com/a"));
    assert!(!is_http_url("ftp://example.com"));
    assert!(!is_http_url("example.com"));
}
