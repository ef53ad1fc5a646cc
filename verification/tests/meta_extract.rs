use zine::extract::parse_html_meta;
use zine::meta::Meta;

#[test]
fn test_og_description_without_title() {
    let html = r#"<html><head><meta property="og:description" content="x"></head><body></body></html>"#;
    let meta = parse_html_meta(html.as_bytes());
    assert_eq!(meta.description, "x");
    assert_eq!(meta.title, "");
}

#[test]
fn test_title_element_overwrites_meta_title() {
    let html = r#"<html><head><meta property="og:description" content="x"><title>Y</title></head><body></body></html>"#;
    let meta = parse_html_meta(html.as_bytes());
    assert_eq!(meta.description, "x");
    assert_eq!(meta.title, "Y");
}

#[test]
fn test_title_overwrites_even_when_og_title_present() {
    let html = r#"<html><head><meta property="og:title" content="from-meta"><title>from-title</title></head></html>"#;
    let meta = parse_html_meta(html.as_bytes());
    assert_eq!(meta.title, "from-title");
}

#[test]
fn test_description_fills_only_when_empty() {
    let html = r#"<html><head><meta name="description" content="first"><meta property="og:description" content="second"></head></html>"#;
    let meta = parse_html_meta(html.as_bytes());
    assert_eq!(meta.description, "first");
}

#[test]
fn test_name_attribute_beats_property() {
    let html = r#"<html><head><meta name="og:image" property="og:description" content="pic"></head></html>"#;
    let meta = parse_html_meta(html.as_bytes());
    assert_eq!(meta.image.as_deref(), Some("pic"));
    assert_eq!(meta.description, "");
}

#[test]
fn test_empty_content_treated_as_absent() {
    let html = r#"<html><head><meta property="og:title" content="  "><meta property="twitter:title" content="tw"></head></html>"#;
    let meta = parse_html_meta(html.as_bytes());
    assert_eq!(meta.title, "tw");
}

#[test]
fn test_title_whitespace_trimmed() {
    let html = "<html><head><title>\n\n   Rust Programming Language\n\n  </title></head></html>";
    let meta = parse_html_meta(html.as_bytes());
    assert_eq!(meta.title, "Rust Programming Language");
}

#[test]
fn test_short_circuit_skips_later_title() {
    let html = r#"<html><head><meta property="og:title" content="early"><meta property="og:description" content="d"><meta property="og:image" content="i"><title>late</title></head></html>"#;
    let meta = parse_html_meta(html.as_bytes());
    // the walk is already filled when it reaches the title element
    assert_eq!(meta.title, "early");
    assert!(meta.is_filled());
}

#[test]
fn test_long_description_cut_to_limit() {
    let long = "d".repeat(300);
    let html = format!(
        r#"<html><head><meta property="og:description" content="{}"></head></html>"#,
        long
    );
    let meta = parse_html_meta(html.as_bytes());
    assert_eq!(meta.description.chars().count(), 200);
}

#[test]
fn test_truncate_cuts_to_200_characters_multibyte() {
    let mut meta = Meta {
        title: "\u{00e9}".repeat(250),
        description: "\u{4e16}".repeat(201),
        url: None,
        image: None,
    };
    meta.truncate();
    assert_eq!(meta.title.chars().count(), 200);
    assert!(meta.title.chars().all(|c| c == '\u{00e9}'));
    assert_eq!(meta.description.chars().count(), 200);
    assert!(meta.description.is_char_boundary(meta.description.len()));
}

#[test]
fn test_truncate_leaves_short_fields_alone() {
    let mut meta = Meta {
        title: "short".to_string(),
        description: "also short".to_string(),
        url: Some("/issue-1".to_string()),
        image: Some("cover.png".to_string()),
    };
    meta.truncate();
    assert_eq!(meta.title, "short");
    assert_eq!(meta.description, "also short");
    assert_eq!(meta.url.as_deref(), Some("/issue-1"));
    assert_eq!(meta.image.as_deref(), Some("cover.png"));
}

#[test]
fn test_is_filled_ignores_url() {
    let meta = Meta {
        title: "t".to_string(),
        description: "d".to_string(),
        url: None,
        image: Some("i".to_string()),
    };
    assert!(meta.is_filled());
    let meta = Meta {
        title: "t".to_string(),
        description: "d".to_string(),
        url: Some("u".to_string()),
        image: Some(String::new()),
    };
    assert!(!meta.is_filled());
    let meta = Meta {
        title: String::new(),
        description: "d".to_string(),
        url: None,
        image: Some("i".to_string()),
    };
    assert!(!meta.is_filled());
}
