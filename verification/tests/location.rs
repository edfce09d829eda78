use servoshell::location::{choose_location, has_suffix, resolve_location};

#[test]
fn a_bare_domain_is_read_as_http() {
    assert_eq!(resolve_location("example.com"), Some("http://example.com/".to_string()));
    assert_eq!(resolve_location("example.org"), Some("http://example.org/".to_string()));
    assert_eq!(resolve_location("sub.example.net"), Some("http://sub.example.net/".to_string()));
}

#[test]
fn words_become_a_web_search() {
    assert_eq!(
        resolve_location("not a url with spaces"),
        Some("https://duckduckgo.com/html/?q=not%20a%20url%20with%20spaces".to_string())
    );
    let found = resolve_location("rust").unwrap();
    assert!(found.starts_with("https://duckduckgo.com/html/?q="));
    assert!(found.ends_with("rust"));
}

#[test]
fn an_absolute_url_is_taken_as_it_is_written_out() {
    assert_eq!(resolve_location("https://example.com/a?b=c"), Some("https://example.com/a?b=c".to_string()));
    assert_eq!(resolve_location("http://example.com"), Some("http://example.com/".to_string()));
    assert_eq!(resolve_location("HTTP://EXAMPLE.COM/x"), Some("http://example.com/x".to_string()));
    assert_eq!(resolve_location("about:blank"), Some("about:blank".to_string()));
}

#[test]
fn a_domain_that_is_not_known_by_its_ending_is_searched_for() {
    assert_eq!(
        resolve_location("example.io"),
        Some("https://duckduckgo.com/html/?q=example.io".to_string())
    );
}

#[test]
fn the_first_reading_that_succeeds_is_chosen() {
    let d = Some("direct".to_string());
    let p = Some("prefixed".to_string());
    let s = Some("search".to_string());
    assert_eq!(choose_location(d.clone(), true, p.clone(), s.clone()), d);
    assert_eq!(choose_location(d.clone(), false, None, None), d);
    assert_eq!(choose_location(None, true, p.clone(), s.clone()), p);
    assert_eq!(choose_location(None, false, p.clone(), s.clone()), s);
    assert_eq!(choose_location(None, true, None, s.clone()), s);
    assert_eq!(choose_location(None, true, None, None), None);
    assert_eq!(choose_location(None, false, p, None), None);
}

#[test]
fn suffixes_are_compared_by_characters() {
    assert!(has_suffix("example.com", ".com"));
    assert!(has_suffix(".com", ".com"));
    assert!(!has_suffix("com", ".com"));
    assert!(!has_suffix("example.como", ".com"));
    assert!(has_suffix("anything", ""));
    assert!(has_suffix("", ""));
    assert!(has_suffix("h\u{e9}llo.org", ".org"));
    assert!(has_suffix("caf\u{e9}", "f\u{e9}"));
    assert!(!has_suffix("cafe", "f\u{e9}"));
}
