use qrself::render::utf8_text;
use qrself::render::QrMatrix;
use qrself::service::qrself_service;
use qrself::service::rebuild_request_url;

/// Builds the module matrix for `data` the way the service's encoder does,
/// for comparing end-to-end output against an independently rendered one.
fn reference_matrix(data: &str) -> QrMatrix {
    let code = qrcode::QrCode::new(data).expect("data fits a QR code");
    let width = code.width();
    let modules: Vec<bool> = code
        .to_colors()
        .into_iter()
        .map(|c| c == qrcode::Color::Dark)
        .collect();
    QrMatrix { width, height: width, modules }
}

#[test]
fn rebuilds_url_from_host_and_path() {
    assert_eq!(rebuild_request_url("example.com", "/x?y=1"), "http://example.com/x?y=1");
    assert_eq!(rebuild_request_url("", "/"), "http:///");
}

#[test]
fn scenario_text_rendering() {
    let r = qrself_service("/", "/", "example.com", "*/*");
    assert_eq!(r.status, 200);
    assert_eq!(r.content_type.as_deref(), Some("text/html; charset=UTF-8"));
    let body = String::from_utf8(r.body).expect("text body is UTF-8");
    assert!(body.starts_with("\u{2588}\u{2588}"));
    let expected = utf8_text(&reference_matrix("http://example.com/"));
    assert_eq!(body, expected);
}

#[test]
fn scenario_png_rendering() {
    let r = qrself_service("/", "/", "example.com", "image/png");
    assert_eq!(r.status, 200);
    assert_eq!(r.content_type.as_deref(), Some("image/png"));
    let decoded = image::load_from_memory(&r.body).expect("valid PNG");
    let side = reference_matrix("http://example.com/").width as u32;
    assert_eq!(decoded.width(), side);
    assert_eq!(decoded.height(), side);
}

#[test]
fn scenario_disallowed_path() {
    let r = qrself_service("/favicon.ico", "/favicon.ico", "example.com", "image/png");
    assert_eq!(r.status, 404);
    assert_eq!(r.content_type, None);
    assert!(r.body.is_empty());
}

#[test]
fn scenario_payload_too_large() {
    let path = format!("/{}", "a".repeat(5000));
    let r = qrself_service(&path, &path, "example.com", "");
    assert_eq!(r.status, 200);
    assert_eq!(r.content_type, None);
    let body = String::from_utf8(r.body).expect("diagnostic body is UTF-8");
    assert!(body.starts_with("{error:"));
    assert!(body.contains(",url:\"http://example.com/"));
    assert!(body.ends_with('}'));
}

#[test]
fn scenario_absent_host_header() {
    let r = qrself_service("/", "/", "", "*/*");
    assert_eq!(r.status, 200);
    let body = String::from_utf8(r.body).expect("text body is UTF-8");
    let expected = utf8_text(&reference_matrix("http:///"));
    assert_eq!(body, expected);
}

#[test]
fn scenario_html_embed_end_to_end() {
    let r = qrself_service("/", "/", "example.com", "text/html");
    assert_eq!(r.status, 200);
    assert_eq!(r.content_type.as_deref(), Some("text/html; charset=UTF-8"));
    let body = String::from_utf8(r.body).expect("HTML body is UTF-8");
    assert!(body.starts_with("<!DOCTYPE html>"));
    assert!(body.contains("data:image/png;base64,"));
}
