use backend::urls::{
    host_matches_domain, is_domain_match, is_supported_download_url, normalize_origin,
    origin_of_parts, url_is_on_domain, url_is_supported, UrlParts,
};

fn parts(scheme: &str, host: Option<&str>, port: Option<u16>, path: &str) -> Option<UrlParts> {
    Some(UrlParts {
        scheme: scheme.to_string(),
        host: host.map(|h| h.to_string()),
        port,
        path: path.to_string(),
        query: None,
        fragment: None,
    })
}

#[test]
fn urls_of_supported_sites() {
    for url in [
        "https://www.youtube.com/watch?v=abc",
        "https://youtube.com/watch?v=abc",
        "http://youtu.be/abc",
        "https://m.youtube.com/watch?v=abc",
        "https://music.youtube.com/watch?v=abc",
        "https://x.com/user/status/1",
        "https://twitter.com/user/status/1",
        "https://mobile.twitter.com/user/status/1",
        "https://www.facebook.com/watch/?v=1",
        "https://m.facebook.com/watch/?v=1",
        "https://fb.watch/abc/",
        "https://www.instagram.com/reel/abc/",
        "https://bsky.app/profile/a/post/b",
        "https://www.tiktok.com/@a/video/1",
        "https://vm.tiktok.com/abc/",
        "https://vt.tiktok.com/abc/",
        "HTTPS://WWW.YOUTUBE.COM/watch?v=abc",
        "https://YouTu.Be/abc",
        "https://user:pw@youtube.com:8443/x",
        "https:///youtube.com",
    ] {
        assert!(is_supported_download_url(url), "{}", url);
    }
}

#[test]
fn urls_that_are_not_supported() {
    for url in [
        "",
        "youtube.com/watch?v=abc",
        "not a url",
        "ftp://youtube.com/file",
        "file:///etc/passwd",
        "data:text/plain,youtube.com",
        "https://example.com/watch",
        "https://notyoutube.com/watch",
        "https://youtube.com.evil.org/watch",
        "https://evilx.com/",
        "https://youtube.co/",
        "https://127.0.0.1/youtube.com",
        "javascript:alert(1)",
    ] {
        assert!(!is_supported_download_url(url), "{}", url);
    }
}

#[test]
fn supported_is_decided_on_the_parts() {
    assert!(url_is_supported(&parts("https", Some("www.youtube.com"), None, "/")));
    assert!(url_is_supported(&parts("http", Some("X.COM"), None, "/")));
    assert!(!url_is_supported(&parts("ftp", Some("x.com"), None, "/")));
    assert!(!url_is_supported(&parts("https", None, None, "/")));
    assert!(!url_is_supported(&parts("https", Some("ax.com"), None, "/")));
    assert!(!url_is_supported(&parts("HTTPS", Some("x.com"), None, "/")));
    assert!(!url_is_supported(&None));
}

#[test]
fn host_matches_a_domain_or_its_subdomains() {
    let host = |s: &str| s.chars().collect::<Vec<char>>();
    assert!(host_matches_domain(&host("tiktok.com"), "tiktok.com"));
    assert!(host_matches_domain(&host("www.tiktok.com"), "tiktok.com"));
    assert!(host_matches_domain(&host("a.b.tiktok.com"), "tiktok.com"));
    assert!(!host_matches_domain(&host("xtiktok.com"), "tiktok.com"));
    assert!(!host_matches_domain(&host("tiktok.com.x"), "tiktok.com"));
    assert!(!host_matches_domain(&host(".com"), "tiktok.com"));
    assert!(!host_matches_domain(&host(""), "tiktok.com"));
    assert!(host_matches_domain(&host(".tiktok.com"), "tiktok.com"));
}

#[test]
fn domain_match_reads_the_host_of_the_url() {
    assert!(is_domain_match("https://www.tiktok.com/@a/video/1", "tiktok.com"));
    assert!(is_domain_match("https://vm.TikTok.com/abc", "vm.tiktok.com"));
    assert!(is_domain_match("ftp://bsky.app/x", "bsky.app"));
    assert!(!is_domain_match("https://www.tiktok.com/@a/video/1", "vm.tiktok.com"));
    assert!(!is_domain_match("https://example.com/tiktok.com", "tiktok.com"));
    assert!(!is_domain_match("tiktok.com", "tiktok.com"));
    assert!(!is_domain_match("mailto:a@tiktok.com", "tiktok.com"));
    assert!(url_is_on_domain(&parts("https", Some("BSKY.app"), None, "/"), "bsky.app"));
    assert!(!url_is_on_domain(&parts("https", None, None, "/"), "bsky.app"));
    assert!(!url_is_on_domain(&None, "bsky.app"));
}

#[test]
fn origins_in_normal_form() {
    assert_eq!(normalize_origin("https://example.com"), Some("https://example.com".to_string()));
    assert_eq!(normalize_origin("https://example.com/"), Some("https://example.com".to_string()));
    assert_eq!(normalize_origin("HTTPS://Example.COM"), Some("https://example.com".to_string()));
    assert_eq!(normalize_origin("http://localhost:5173"), Some("http://localhost:5173".to_string()));
    assert_eq!(
        normalize_origin("http://127.0.0.1:5173/"),
        Some("http://127.0.0.1:5173".to_string())
    );
    assert_eq!(normalize_origin("https://example.com:443"), Some("https://example.com".to_string()));
    assert_eq!(normalize_origin("http://example.com:80"), Some("http://example.com".to_string()));
    assert_eq!(
        normalize_origin("https://example.com:80"),
        Some("https://example.com:80".to_string())
    );
    assert_eq!(
        normalize_origin("http://example.com:65535"),
        Some("http://example.com:65535".to_string())
    );
}

#[test]
fn what_is_no_origin() {
    for value in [
        "",
        "example.com",
        "https://example.com/path",
        "https://example.com/?q=1",
        "https://example.com/#top",
        "https://example.com?",
        "ftp://example.com",
        "ws://example.com",
        "file:///tmp",
        "mailto:a@example.com",
        "https://",
        "null",
        "*",
    ] {
        assert_eq!(normalize_origin(value), None, "{:?}", value);
    }
}

#[test]
fn origin_is_decided_on_the_parts() {
    assert_eq!(
        origin_of_parts(&parts("https", Some("Example.com"), Some(8443), "/")),
        Some("https://example.com:8443".to_string())
    );
    assert_eq!(
        origin_of_parts(&parts("https", Some("example.com"), Some(443), "/")),
        Some("https://example.com".to_string())
    );
    assert_eq!(
        origin_of_parts(&parts("http", Some("example.com"), Some(443), "/")),
        Some("http://example.com:443".to_string())
    );
    assert_eq!(origin_of_parts(&parts("https", Some("example.com"), None, "")), None);
    assert_eq!(origin_of_parts(&parts("https", None, None, "/")), None);
    assert_eq!(origin_of_parts(&parts("gopher", Some("example.com"), None, "/")), None);
    let mut with_query = parts("https", Some("example.com"), None, "/").unwrap();
    with_query.query = Some("".to_string());
    assert_eq!(origin_of_parts(&Some(with_query)), None);
    let mut with_fragment = parts("https", Some("example.com"), None, "/").unwrap();
    with_fragment.fragment = Some("x".to_string());
    assert_eq!(origin_of_parts(&Some(with_fragment)), None);
    assert_eq!(origin_of_parts(&None), None);
}
