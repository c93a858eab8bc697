use fluent_static::support::{negotiate_language, RequestLanguageConfig};

fn supported() -> Vec<String> {
    vec!["de".to_string(), "en".to_string(), "fr".to_string()]
}

#[test]
fn support_test_language_from_header() {
    let cfg = RequestLanguageConfig::builder().build();
    let chosen = negotiate_language(
        &cfg,
        None,
        Some("en-US,en;q=0.5"),
        &supported(),
        "en",
    );
    assert_eq!("en", chosen);
}

#[test]
fn support_test_language_from_cookie() {
    let cfg = RequestLanguageConfig::builder()
        .ignore_accept_language_header(true)
        .language_cookie_name("lang")
        .build();
    let chosen = negotiate_language(
        &cfg,
        Some("de"),
        Some("en-US,en;q=0.5"),
        &supported(),
        "en",
    );
    assert_eq!("de", chosen);
}

#[test]
fn support_test_default_language() {
    let cfg = RequestLanguageConfig::builder().fallback_language_id("fr").build();
    let chosen = negotiate_language(&cfg, None, None, &supported(), "en");
    assert_eq!("fr", chosen);
}

#[test]
fn support_test_no_language_specified() {
    let cfg = RequestLanguageConfig::builder().build();
    let chosen = negotiate_language(&cfg, None, None, &supported(), "en");
    assert_eq!("en", chosen);
}

#[test]
fn config_accessors() {
    let cfg = RequestLanguageConfig::builder()
        .ignore_accept_language_header(true)
        .language_cookie_name("lang")
        .fallback_language_id("fr")
        .build();
    assert!(cfg.ignore_language_header());
    assert_eq!(Some("lang"), cfg.language_cookie_name());
    assert_eq!(Some("fr"), cfg.fallback_language_id());
}

#[test]
fn unsupported_cookie_falls_through() {
    let cfg = RequestLanguageConfig::builder()
        .language_cookie_name("lang")
        .build();
    let chosen = negotiate_language(&cfg, Some("xx"), None, &supported(), "en");
    assert_eq!("en", chosen);
}

#[test]
fn degenerate_quality_header_is_skipped() {
    // a quality written as a non-numeric word cannot drive the ordering,
    // so the header is ignored and the fallback wins
    let cfg = RequestLanguageConfig::builder().fallback_language_id("fr").build();
    let chosen = negotiate_language(&cfg, None, Some("en;q=nan,de"), &supported(), "en");
    assert_eq!("fr", chosen);
    // an ordinary header with the same shape still works
    let chosen2 = negotiate_language(&cfg, None, Some("de;q=0.9"), &supported(), "en");
    assert_eq!("de", chosen2);
}
