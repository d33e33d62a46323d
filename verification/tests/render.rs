use qrself::render::html_body_b64_image;
use qrself::render::qrcode_image_bytes;
use qrself::render::render;
use qrself::render::utf8_text;
use qrself::render::QrMatrix;
use qrself::render::Type;

fn sample_matrix() -> QrMatrix {
    QrMatrix { width: 2, height: 2, modules: vec![true, false, false, true] }
}

#[test]
fn text_rendering_exact() {
    let m = sample_matrix();
    let s = utf8_text(&m);
    assert_eq!(s, "\u{2588}\u{2588}  \n  \u{2588}\u{2588}\n");
}

#[test]
fn text_rendering_line_shape() {
    // A 3-wide, 2-high matrix renders as 2 lines of 6 glyph characters.
    let m = QrMatrix { width: 3, height: 2, modules: vec![true, true, false, false, true, false] };
    let s = utf8_text(&m);
    let lines: Vec<&str> = s.lines().collect();
    assert_eq!(lines.len(), 2);
    for line in lines {
        assert_eq!(line.chars().count(), 6);
        assert!(line.chars().all(|c| c == ' ' || c == '\u{2588}'));
    }
    assert!(s.ends_with('\n'));
}

#[test]
fn png_dimensions_and_pixel_values() {
    let m = sample_matrix();
    let png = qrcode_image_bytes(&m);
    assert_eq!(&png[0..8], &[0x89, b'P', b'N', b'G', 0x0d, 0x0a, 0x1a, 0x0a]);
    let decoded = image::load_from_memory(&png).expect("valid PNG");
    assert_eq!(decoded.width(), 2);
    assert_eq!(decoded.height(), 2);
    // Dark modules become black (0), light modules white (255).
    let luma = decoded.to_luma8();
    assert_eq!(luma.as_raw(), &vec![0u8, 255, 255, 0]);
}

#[test]
fn html_embed_contains_base64_png() {
    let m = sample_matrix();
    let out = render(&m, Type::ImageHtmlEmbed);
    assert_eq!(out.content_type, "text/html; charset=UTF-8");
    let body = String::from_utf8(out.body).expect("HTML body is UTF-8");
    assert!(body.starts_with("<!DOCTYPE html>"));
    let png = qrcode_image_bytes(&m);
    let b64 = base64::Engine::encode(&base64::engine::general_purpose::STANDARD_NO_PAD, &png);
    assert!(!b64.is_empty());
    assert!(!b64.contains('='));
    let needle = format!("data:image/png;base64,{b64}");
    assert!(body.contains(&needle));
    assert_eq!(body, html_body_b64_image(&b64));
}

#[test]
fn render_is_deterministic() {
    let m = sample_matrix();
    for ty in [Type::Utf8Text, Type::Image, Type::ImageHtmlEmbed] {
        let a = render(&m, ty);
        let b = render(&m, ty);
        assert_eq!(a.body, b.body);
        assert_eq!(a.content_type, b.content_type);
    }
}

#[test]
fn render_content_types_and_bodies() {
    let m = sample_matrix();
    let text = render(&m, Type::Utf8Text);
    assert_eq!(text.content_type, "text/html; charset=UTF-8");
    assert_eq!(text.body, utf8_text(&m).into_bytes());
    let img = render(&m, Type::Image);
    assert_eq!(img.content_type, "image/png");
    assert_eq!(img.body, qrcode_image_bytes(&m));
}

#[test]
fn default_type_is_image() {
    assert_eq!(Type::default(), Type::Image);
}
