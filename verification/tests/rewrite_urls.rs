use zine::rewrite::rewrite_html_base_url;

const SITE_URL: &str = "https://github.com";
const CDN_URL: &str = "https://cdn-example.net";

fn rewrite(html: &str) -> String {
    let out = rewrite_html_base_url(
        html.as_bytes(),
        &Some(SITE_URL.to_string()),
        &Some(CDN_URL.to_string()),
    )
    .unwrap();
    String::from_utf8(out).unwrap()
}

#[test]
fn test_rewrite_root_relative_a_href() {
    assert_eq!(
        rewrite("<a href=\"/hello\"></a>"),
        "<a href=\"https://github.com/hello\"></a>"
    );
    assert_eq!(
        rewrite("<a href=\"/\"></a>"),
        "<a href=\"https://github.com/\"></a>"
    );
    assert_eq!(
        rewrite("<a href=\"/hello/world\"></a>"),
        "<a href=\"https://github.com/hello/world\"></a>"
    );
}

#[test]
fn test_rewrite_root_relative_other_elements() {
    assert_eq!(
        rewrite("<link rel=\"stylesheet\" href=\"/hello.css\" />"),
        "<link rel=\"stylesheet\" href=\"https://github.com/hello.css\" />"
    );
    assert_eq!(
        rewrite("<img src=\"/hello.png\" />"),
        "<img src=\"https://github.com/hello.png\" />"
    );
    assert_eq!(
        rewrite("<script src=\"/hello.js\" />"),
        "<script src=\"https://github.com/hello.js\" />"
    );
    assert_eq!(
        rewrite("<audio src=\"/hello.mp3\" />"),
        "<audio src=\"https://github.com/hello.mp3\" />"
    );
    assert_eq!(
        rewrite("<video src=\"/hello.mp4\" />"),
        "<video src=\"https://github.com/hello.mp4\" />"
    );
    assert_eq!(
        rewrite("<iframe src=\"/hello.html\"></iframe>"),
        "<iframe src=\"https://github.com/hello.html\"></iframe>"
    );
}

#[test]
fn test_not_rewrite_absolute_url() {
    for html in [
        "<a href=\"https://github.com/hello\"></a>",
        "<img src=\"https://github.com/hello.png\"/>",
        "<script src=\"https://github.com/hello.js\"/>",
        "<audio src=\"https://github.com/hello.mp3\"/>",
        "<video src=\"https://github.com/hello.mp4\"/>",
        "<iframe src=\"https://github.com/hello.html\"></iframe>",
    ] {
        assert_eq!(rewrite(html), html);
    }
}

#[test]
fn test_not_rewrite_relative_path() {
    for html in [
        "<a href=\"hello\"></a>",
        "<img src=\"hello.png\"/>",
        "<script src=\"hello.js\"/>",
        "<audio src=\"hello.mp3\"/>",
        "<video src=\"hello.mp4\"/>",
        "<iframe src=\"hello.html\"></iframe>",
        "<img src=\"static/hello.png\"/>",
        "<meta content=\"static/zine-placeholder.svg\" />",
    ] {
        assert_eq!(rewrite(html), html);
    }
}

#[test]
fn test_rewrite_static_prefix_to_cdn() {
    assert_eq!(
        rewrite("<img src=\"/static/hello.png\" />"),
        "<img src=\"https://cdn-example.net/hello.png\" />"
    );
    assert_eq!(
        rewrite("<link rel=\"stylesheet\" href=\"/static/hello.css\" />"),
        "<link rel=\"stylesheet\" href=\"https://cdn-example.net/hello.css\" />"
    );
    assert_eq!(
        rewrite("<meta content=\"/static/zine-placeholder.svg\" />"),
        "<meta content=\"https://cdn-example.net/zine-placeholder.svg\" />"
    );
}

#[test]
fn test_not_rewrite_cdn_url_again() {
    let html = "<img src=\"https://cdn-example.net/static/hello.png\"/>";
    assert_eq!(rewrite(html), html);
}

#[test]
fn test_no_bases_leaves_input_unchanged() {
    let html = "<a href=\"/hello\"></a><img src=\"/static/x.png\"/>";
    let out = rewrite_html_base_url(html.as_bytes(), &None, &None).unwrap();
    assert_eq!(String::from_utf8(out).unwrap(), html);
}

#[test]
fn test_static_prefix_without_cdn_uses_site_base() {
    let out = rewrite_html_base_url(
        "<img src=\"/static/x.png\" />".as_bytes(),
        &Some(SITE_URL.to_string()),
        &None,
    )
    .unwrap();
    assert_eq!(
        String::from_utf8(out).unwrap(),
        "<img src=\"https://github.com/static/x.png\" />"
    );
}

#[test]
fn test_rewrite_idempotent_second_pass() {
    let html = concat_idempotence_input();
    let once = rewrite(&html);
    let twice = rewrite(&once);
    assert_eq!(once, twice);
}

fn concat_idempotence_input() -> String {
    let mut html = String::new();
    html.push_str("<a href=\"/hello\"></a>");
    html.push_str("<img src=\"/static/x.png\"/>");
    html.push_str("<img src=\"rel.png\"/>");
    html.push_str(
        "<body><div class=\"bg-primary text-main\" style=\"background-image: url('/a.png');\"></div></body>",
    );
    html
}

#[test]
fn test_rewrite_background_image_url() {
    let html = r#"<body><div class="bg-primary text-main" style="background-image: url('/test.png');"></div></body>"#;
    assert_eq!(
        rewrite(html),
        html.replace("/test.png", "https://github.com/test.png")
    );
}

#[test]
fn test_rewrite_cdn_background_image_url() {
    let html = r#"<body><div class="bg-primary text-main" style="background-image: url('/static/test.png');"></div></body>"#;
    assert_eq!(
        rewrite(html),
        html.replace("/static/test.png", "https://cdn-example.net/test.png")
    );
}

#[test]
fn test_background_image_keeps_other_declarations() {
    let html = r#"<body><div class="bg-primary text-main" style="color: red; background-image: url('/a.png'); margin: 0"></div></body>"#;
    let expected = r#"<body><div class="bg-primary text-main" style="color: red;background-image: url('https://github.com/a.png');margin: 0;"></div></body>"#;
    assert_eq!(rewrite(html), expected);
}
