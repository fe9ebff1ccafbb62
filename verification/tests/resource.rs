use annatar::{Location, Resource};

#[test]
fn web_addresses_are_downloaded() {
    let r = Resource::new("http://example.com/a.png".to_string());
    assert!(r.is_http());
    assert!(matches!(r.location(), Location::Web(u) if u == "http://example.com/a.png"));
    let r = Resource::new("https://example.com/a.png".to_string());
    assert!(r.is_http());
}

#[test]
fn other_paths_are_read() {
    for p in ["a.png", "/tmp/http://x", "HTTP://x", "http:/x", "", "ftp://x"] {
        let r = Resource::new(p.to_string());
        assert!(!r.is_http(), "{}", p);
        assert!(matches!(r.location(), Location::Local(l) if l == p));
    }
}
