use qrself::classify::parse_accept_type;
use qrself::classify::parse_extension_type;
use qrself::classify::parse_render_type;
use qrself::render::Type;
use qrself::truncate_str;

#[test]
fn disallowed_paths_rejected() {
    assert_eq!(parse_render_type("/favicon.ico", "image/png"), None);
    assert_eq!(parse_render_type("/favicon.ico", "*/*"), None);
    assert_eq!(parse_render_type("/favicon.ico", ""), None);
    assert_eq!(parse_render_type("/robots.txt", "text/html"), None);
    assert_eq!(parse_render_type("/robots.txt", ""), None);
}

#[test]
fn extension_overrides_permissive_html() {
    assert_eq!(parse_render_type("/foo.png", "text/html"), Some(Type::Image));
    assert_eq!(parse_render_type("/a/b/c.jpeg", "text/html"), Some(Type::Image));
    assert_eq!(parse_render_type("/page.html", "text/html"), Some(Type::ImageHtmlEmbed));
}

#[test]
fn restrictive_accept_wins_over_extension() {
    assert_eq!(parse_render_type("/foo.html", "image/png"), Some(Type::Image));
    assert_eq!(parse_render_type("/foo.html", "image/*"), Some(Type::Image));
    assert_eq!(parse_render_type("/foo.png", "*/*"), Some(Type::Utf8Text));
}

#[test]
fn empty_accept_no_extension_defaults_to_image() {
    assert_eq!(parse_render_type("/", ""), Some(Type::Image));
    assert_eq!(parse_render_type("/some/path", ""), Some(Type::Image));
}

#[test]
fn html_accept_without_extension_embeds() {
    assert_eq!(parse_render_type("/", "text/html"), Some(Type::ImageHtmlEmbed));
}

#[test]
fn accept_first_recognized_token_wins() {
    assert_eq!(parse_accept_type("text/html,image/png"), Some(Type::ImageHtmlEmbed));
    assert_eq!(parse_accept_type("image/png,text/html"), Some(Type::Image));
    assert_eq!(parse_accept_type("application/json, image/png"), Some(Type::Image));
    assert_eq!(parse_accept_type(" */* "), Some(Type::Utf8Text));
    assert_eq!(parse_accept_type("application/json"), None);
    assert_eq!(parse_accept_type(""), None);
}

#[test]
fn extension_classifier_cases() {
    assert_eq!(parse_extension_type("/a/b.html"), Some(Type::ImageHtmlEmbed));
    assert_eq!(parse_extension_type("/a/b.htm"), Some(Type::ImageHtmlEmbed));
    assert_eq!(parse_extension_type("/x.png"), Some(Type::Image));
    assert_eq!(parse_extension_type("/x.jpg"), Some(Type::Image));
    assert_eq!(parse_extension_type("/x.jpeg"), Some(Type::Image));
    assert_eq!(parse_extension_type("/x.gif"), Some(Type::Image));
    assert_eq!(parse_extension_type("/x.webp"), Some(Type::Image));
    assert_eq!(parse_extension_type("/x.txt"), None);
    assert_eq!(parse_extension_type("/x"), None);
    assert_eq!(parse_extension_type("/"), None);
    // A final segment without a dot has no extension, even when its whole
    // text matches one.
    assert_eq!(parse_extension_type("/html"), None);
    assert_eq!(parse_extension_type("/dir.png/file"), None);
    assert_eq!(parse_extension_type("/a.tar.gz"), None);
    assert_eq!(parse_extension_type("/x.PNG"), None);
}

#[test]
fn truncation_caps_classification_input() {
    let s: String = "x".repeat(2000);
    assert_eq!(truncate_str(&s).chars().count(), 1024);
    let short = "abc";
    assert_eq!(truncate_str(short), "abc");

    // The extension lies beyond the cap, so it is ignored and the default
    // applies.
    let long_png = format!("/{}{}", "a".repeat(1020), ".png");
    assert_eq!(parse_render_type(&long_png, ""), Some(Type::Image));
    assert_eq!(parse_render_type(&long_png, "text/html"), Some(Type::ImageHtmlEmbed));

    // A disallowed prefix alone does not reject once the path is longer.
    let long_favicon = format!("/favicon.ico{}", "a".repeat(2000));
    assert_eq!(parse_render_type(&long_favicon, ""), Some(Type::Image));
}
