//! Request handling: reconstructs the scan-target URL, resolves the render
//! decision, asks the QR encoder for a module matrix, and produces the
//! response — a rendering on success, a diagnostic body on encoding failure,
//! or an empty 404 for disallowed paths.

use vstd::prelude::*;
use vstd::string::StrSliceExecFns;
use vstd::string::StringExecFns;
use vstd::utf8::encode_utf8;

use crate::classify::parse_render_type;
use crate::classify::resolve_spec;
use crate::render::content_type_chars;
use crate::render::render;
use crate::render::render_bytes;
use crate::render::QrMatrix;

verus! {

/// The QR encoding of a string: the matrix rows on success, or the encoder's
/// error description when the data does not fit any supported QR code.
pub uninterp spec fn qr_encoding_of(s: Seq<char>) -> Result<Seq<Seq<bool>>, Seq<char>>;

/// Relies on qrcode's `QrCode::new` (error correction level M, smallest
/// fitting version): a deterministic function of the input string that on
/// success yields a square matrix of dark/light modules with 21 to 177
/// modules per side, and on failure a `QrError` value, carried here as its
/// `Debug` text.
#[verifier::external_body]
fn qr_encode(url: &str) -> (r: Result<QrMatrix, String>)
    ensures
        match r {
            Ok(m) => {
                &&& m.wf()
                &&& m.height == m.width
                &&& 1 <= m.width <= 177
                &&& qr_encoding_of(url@) == Ok::<Seq<Seq<bool>>, Seq<char>>(m@)
            },
            Err(e) => qr_encoding_of(url@) == Err::<Seq<Seq<bool>>, Seq<char>>(e@),
        },
{
    match qrcode::QrCode::new(url) {
        Ok(code) => {
            let width = code.width();
            let modules: Vec<bool> = code
                .to_colors()
                .into_iter()
                .map(|c| match c {
                    qrcode::Color::Dark => true,
                    qrcode::Color::Light => false,
                })
                .collect();
            Ok(QrMatrix { width, height: width, modules })
        },
        Err(e) => Err(format!("{e:?}")),
    }
}

/// The `Debug` rendering of a string: quoted, with escapes.
pub uninterp spec fn str_debug_of(s: Seq<char>) -> Seq<char>;

/// Relies on std's `Debug` formatting of `str`: a function of the characters
/// alone, quoting the string and escaping special characters.
#[verifier::external_body]
fn debug_quote(s: &str) -> (r: String)
    ensures
        r@ == str_debug_of(s@),
{
    format!("{s:?}")
}

/// The scan-target URL rebuilt from a request: `http://`, then the `Host`
/// header value (empty when the header is absent), then the full path and
/// query.
pub open spec fn rebuilt_url(host: Seq<char>, path_and_query: Seq<char>) -> Seq<char> {
    "http://"@ + host + path_and_query
}

/// Rebuilds the scan-target URL from the `Host` header value and the
/// request's full path and query. Nothing is validated or normalized; an
/// absent `Host` header is passed in as the empty string.
pub fn rebuild_request_url(host: &str, path_and_query: &str) -> (r: String)
    ensures
        r@ == rebuilt_url(host@, path_and_query@),
{
    let mut out = String::from_str("http://");
    out.append(host);
    out.append(path_and_query);
    out
}

/// The diagnostic body for a failed QR encoding: the encoder's error text
/// and the quoted offending URL.
pub open spec fn diagnostic_chars(error: Seq<char>, url: Seq<char>) -> Seq<char> {
    "{error:"@ + error + ",url:"@ + str_debug_of(url) + "}"@
}

fn diagnostic_body(error: &String, url: &String) -> (r: Vec<u8>)
    ensures
        r@ == encode_utf8(diagnostic_chars(error@, url@)),
{
    let mut out = String::from_str("{error:");
    out.append(error.as_str());
    out.append(",url:");
    let quoted = debug_quote(url.as_str());
    out.append(quoted.as_str());
    out.append("}");
    out.as_str().as_bytes_vec()
}

/// One HTTP response of the service: its status, its content type (absent
/// for the 404 and diagnostic bodies), and its body. Every response the
/// service sends additionally carries the fixed header
/// `X-Robots-Tag: noindex`, which the transport layer attaches.
pub struct Response {
    pub status: u16,
    pub content_type: Option<String>,
    pub body: Vec<u8>,
}

/// What the service answers: an empty 404 for a disallowed path; otherwise
/// the resolved rendering of the QR code for the rebuilt URL with status
/// 200, or — when the URL does not fit any QR code — status 200 with the
/// diagnostic body and no content type.
pub open spec fn service_spec(
    uri_path: Seq<char>,
    path_and_query: Seq<char>,
    host: Seq<char>,
    accept: Seq<char>,
) -> (int, Option<Seq<char>>, Seq<u8>) {
    match resolve_spec(uri_path, accept) {
        None => (404int, None::<Seq<char>>, Seq::<u8>::empty()),
        Some(ty) => {
            let url = rebuilt_url(host, path_and_query);
            match qr_encoding_of(url) {
                Ok(rows) => (
                    200int,
                    Some(content_type_chars(ty)),
                    render_bytes(rows.len() as int, rows.len() as int, rows, ty),
                ),
                Err(e) => (200int, None::<Seq<char>>, encode_utf8(diagnostic_chars(e, url))),
            }
        },
    }
}

/// Handles one request, given the pieces of it the service reads: the URI
/// path (for classification), the full path and query (for the rebuilt
/// URL), the `Host` header value and the `Accept` header value (each the
/// empty string when absent).
pub fn qrself_service(uri_path: &str, path_and_query: &str, host: &str, accept: &str) -> (r:
    Response)
    ensures
        ({
            let spec = service_spec(uri_path@, path_and_query@, host@, accept@);
            &&& r.status as int == spec.0
            &&& r.content_type.deep_view() == spec.1
            &&& r.body@ == spec.2
        }),
{
    match parse_render_type(uri_path, accept) {
        None => Response { status: 404, content_type: None, body: Vec::new() },
        Some(ty) => {
            let url = rebuild_request_url(host, path_and_query);
            match qr_encode(url.as_str()) {
                Ok(matrix) => {
                    proof {
                        matrix.lemma_row_len();
                    }
                    let out = render(&matrix, ty);
                    Response {
                        status: 200,
                        content_type: Some(out.content_type),
                        body: out.body,
                    }
                },
                Err(e) => Response {
                    status: 200,
                    content_type: None,
                    body: diagnostic_body(&e, &url),
                },
            }
        },
    }
}

} // verus!
