use zine::style::{rewrite_bg_value, rewrite_style_value, style_pairs_str, trimmed_str};

#[test]
fn test_style_pairs_split_and_trim() {
    let pairs = style_pairs_str("color: red; background-image: url('/a.png') ;margin:0");
    let pairs: Vec<(&str, &str)> = pairs
        .iter()
        .map(|(k, v)| (k.as_str(), v.as_str()))
        .collect();
    assert_eq!(
        pairs,
        vec![
            ("color", "red"),
            ("background-image", "url('/a.png')"),
            ("margin", "0"),
        ]
    );
}

#[test]
fn test_trimmed_str() {
    assert_eq!(trimmed_str("  a b \t\n"), "a b");
    assert_eq!(trimmed_str(""), "");
    assert_eq!(trimmed_str("   "), "");
}

#[test]
fn test_bg_value_precedence() {
    let site = Some("https://site".to_string());
    let cdn = Some("https://cdn".to_string());
    assert_eq!(
        rewrite_bg_value("url('/static/a.png')", &site, &cdn).as_deref(),
        Some("url('https://cdn/a.png')")
    );
    assert_eq!(
        rewrite_bg_value("url('/a.png')", &site, &cdn).as_deref(),
        Some("url('https://site/a.png')")
    );
    assert_eq!(rewrite_bg_value("url('https://x/a.png')", &site, &cdn), None);
    // the same precedence as for attributes: without a CDN base, a static
    // path is still root-relative and takes the site base
    assert_eq!(
        rewrite_bg_value("url('/static/a.png')", &site, &None).as_deref(),
        Some("url('https://site/static/a.png')")
    );
    assert_eq!(rewrite_bg_value("url('/a.png')", &None, &cdn), None);
}

#[test]
fn test_style_without_background_image_untouched() {
    let site = Some("https://site".to_string());
    let cdn = Some("https://cdn".to_string());
    assert_eq!(rewrite_style_value("color: red", &site, &cdn), None);
    assert_eq!(rewrite_style_value("", &site, &cdn), None);
}

#[test]
fn test_style_rewrites_and_reserializes() {
    let site = Some("https://site".to_string());
    let cdn = None;
    assert_eq!(
        rewrite_style_value("background-image: url('/a.png');", &site, &cdn).as_deref(),
        Some("background-image: url('https://site/a.png');")
    );
}
