//! Rendering: turns a QR module matrix into one of three representations —
//! glyph text, a PNG image, or an HTML page embedding that PNG — together
//! with the matching content type.

use vstd::prelude::*;
use vstd::string::StrSliceExecFns;
use vstd::string::StringExecFns;
use vstd::utf8::encode_utf8;

verus! {

/// The representation to produce for a request. `Image` is the default when
/// no signal resolves one.
#[derive(Clone, Copy, Debug, PartialEq, Eq, Structural)]
pub enum Type {
    Utf8Text,
    Image,
    ImageHtmlEmbed,
}

impl Default for Type {
    fn default() -> (r: Self)
        ensures
            r == Type::Image,
    {
        Type::Image
    }
}

/// A QR code's module matrix: `width * height` dark/light modules in
/// row-major order. Its view is the sequence of its rows.
#[derive(Debug)]
pub struct QrMatrix {
    pub width: usize,
    pub height: usize,
    pub modules: Vec<bool>,
}

impl QrMatrix {
    /// The module vector holds exactly one entry per cell.
    pub open spec fn wf(&self) -> bool {
        self.modules@.len() == self.width * self.height
    }

    /// Every row of the view has the matrix's width.
    pub proof fn lemma_row_len(&self)
        requires
            self.wf(),
        ensures
            self@.len() == self.height,
            forall|r: int| 0 <= r < self@.len() ==> (#[trigger] self@[r]).len() == self.width,
    {
        let w = self.width as int;
        let h = self.height as int;
        assert forall|r: int| 0 <= r < self@.len() implies (#[trigger] self@[r]).len()
            == self.width by {
            assert(0 <= r * w && (r + 1) * w <= w * h && (r + 1) * w - r * w == w)
                by (nonlinear_arith)
                requires
                    0 <= r < h,
                    w >= 0,
            ;
        }
    }

    /// Reads the module in row `r`, column `c`.
    pub fn get(&self, r: usize, c: usize) -> (dark: bool)
        requires
            self.wf(),
            r < self.height,
            c < self.width,
        ensures
            dark == self@[r as int][c as int],
    {
        let n = self.modules.len();
        proof {
            let w = self.width as int;
            let h = self.height as int;
            let ri = r as int;
            assert(0 <= ri * w && ri * w + c < w * h && ri * w + c < (ri + 1) * w && (ri + 1) * w
                <= w * h) by (nonlinear_arith)
                requires
                    0 <= ri < h,
                    0 <= c < w,
            ;
            assert(ri * w + c < n);
            assert(self@[ri][c as int] == self.modules@[ri * w + c]);
        }
        self.modules[r * self.width + c]
    }
}

impl View for QrMatrix {
    type V = Seq<Seq<bool>>;

    open spec fn view(&self) -> Seq<Seq<bool>> {
        Seq::new(
            self.height as nat,
            |r: int| self.modules@.subrange(r * self.width, (r + 1) * self.width),
        )
    }
}

/// The two glyph characters for one module: two full blocks when dark, two
/// spaces when light.
pub open spec fn text_row(row: Seq<bool>) -> Seq<char> {
    Seq::new((2 * row.len()) as nat, |i: int| if row[i / 2] {
        '\u{2588}'
    } else {
        ' '
    })
}

/// The glyph rendering of a matrix: each row's glyph characters followed by
/// one newline, rows in order.
pub open spec fn text_render(rows: Seq<Seq<bool>>) -> Seq<char>
    decreases rows.len(),
{
    if rows.len() == 0 {
        Seq::empty()
    } else {
        text_render(rows.drop_last()) + text_row(rows.last()).push('\n')
    }
}

/// The grayscale value of one module: dark maps to black, light to white.
pub open spec fn pixel_of(dark: bool) -> u8 {
    if dark {
        0u8
    } else {
        255u8
    }
}

/// The grayscale pixels of one row of modules.
pub open spec fn pixel_row(row: Seq<bool>) -> Seq<u8> {
    Seq::new(row.len(), |i: int| pixel_of(row[i]))
}

/// The row-major grayscale pixel buffer of a matrix, one pixel per module.
pub open spec fn pixels_flat(rows: Seq<Seq<bool>>) -> Seq<u8>
    decreases rows.len(),
{
    if rows.len() == 0 {
        Seq::empty()
    } else {
        pixels_flat(rows.drop_last()) + pixel_row(rows.last())
    }
}

/// A matrix of uniform row width `w` yields one pixel per cell.
pub proof fn lemma_pixels_flat_len(rows: Seq<Seq<bool>>, w: int)
    requires
        w >= 0,
        forall|r: int| 0 <= r < rows.len() ==> (#[trigger] rows[r]).len() == w,
    ensures
        pixels_flat(rows).len() == rows.len() * w,
    decreases rows.len(),
{
    let n = rows.len() as int;
    if rows.len() == 0 {
        assert(n * w == 0) by (nonlinear_arith)
            requires
                n == 0,
        ;
    } else {
        lemma_pixels_flat_len(rows.drop_last(), w);
        assert((rows.len() - 1) * w + w == rows.len() * w) by (nonlinear_arith);
    }
}

/// The PNG encoding of an 8-bit grayscale image with the given dimensions
/// and row-major pixels.
pub uninterp spec fn png_of(width: int, height: int, pixels: Seq<u8>) -> Seq<u8>;

/// Relies on image's `ImageBuffer::from_raw` and `ImageBuffer::write_to`
/// with the PNG format: encoding an 8-bit grayscale buffer whose length
/// matches its nonzero dimensions succeeds and depends on the dimensions and
/// pixels alone.
#[verifier::external_body]
fn encode_png(width: u32, height: u32, pixels: Vec<u8>) -> (r: Vec<u8>)
    requires
        1 <= width,
        1 <= height,
        pixels@.len() == width * height,
    ensures
        r@ == png_of(width as int, height as int, pixels@),
{
    let image: image::ImageBuffer<image::Luma<u8>, Vec<u8>> = image::ImageBuffer::from_raw(
        width,
        height,
        pixels,
    ).expect("buffer length matches the dimensions");
    let mut cursor = std::io::Cursor::new(Vec::new());
    image.write_to(&mut cursor, image::ImageFormat::Png).expect(
        "writing to an in-memory vector cannot fail",
    );
    cursor.into_inner()
}

/// The base64 encoding (standard alphabet, no padding) of a byte sequence.
pub uninterp spec fn base64_of(b: Seq<u8>) -> Seq<char>;

/// Relies on base64's `Engine::encode` with the `STANDARD_NO_PAD` engine:
/// the standard alphabet without padding characters, a function of the input
/// bytes alone.
#[verifier::external_body]
fn base64_encode(b: &Vec<u8>) -> (r: String)
    ensures
        r@ == base64_of(b@),
{
    base64::Engine::encode(&base64::engine::general_purpose::STANDARD_NO_PAD, b)
}

/// The content type sent with each representation.
pub open spec fn content_type_chars(ty: Type) -> Seq<char> {
    match ty {
        Type::Image => "image/png"@,
        _ => "text/html; charset=UTF-8"@,
    }
}

/// The fixed HTML page around a base64 PNG: the encoded image centered
/// full-viewport on a black background, scaled without smoothing.
pub open spec fn html_page(b64: Seq<char>) -> Seq<char> {
    "<!DOCTYPE html>\n<html>\n<head>\n    <meta name=\"viewport\" content=\"width=device-width, initial-scale=1\">\n    <title>Redirecting to target</title>\n    <style>\n    body {\n        overflow: hidden;\n        background-color: black;\n    }\n    div {\n        display: flex;\n        height: 100vh;\n        align-items: center;\n        justify-content: center;\n    }\n    img {\n        width: 100vmin;\n        height: 100vmin;\n        image-rendering: pixelated;\n    }\n    </style>\n</head>\n<body>\n    <div>\n        <img src=\"data:image/png;base64,"@
        + b64 + "\" alt=\"the QR code to scan\" />\n    </div>\n</body>\n</html>"@
}

/// Splices a base64 PNG into the fixed HTML template.
pub fn html_body_b64_image(image_bytes_base64: &str) -> (r: String)
    ensures
        r@ == html_page(image_bytes_base64@),
{
    let mut out = String::from_str(
        "<!DOCTYPE html>\n<html>\n<head>\n    <meta name=\"viewport\" content=\"width=device-width, initial-scale=1\">\n    <title>Redirecting to target</title>\n    <style>\n    body {\n        overflow: hidden;\n        background-color: black;\n    }\n    div {\n        display: flex;\n        height: 100vh;\n        align-items: center;\n        justify-content: center;\n    }\n    img {\n        width: 100vmin;\n        height: 100vmin;\n        image-rendering: pixelated;\n    }\n    </style>\n</head>\n<body>\n    <div>\n        <img src=\"data:image/png;base64,",
    );
    out.append(image_bytes_base64);
    out.append("\" alt=\"the QR code to scan\" />\n    </div>\n</body>\n</html>");
    out
}

/// Renders the matrix as glyph text: each dark module as two full blocks,
/// each light module as two spaces, each row ended by a newline.
pub fn utf8_text(matrix: &QrMatrix) -> (r: String)
    requires
        matrix.wf(),
    ensures
        r@ == text_render(matrix@),
{
    proof {
        matrix.lemma_row_len();
    }
    let mut out = String::new();
    let mut i: usize = 0;
    while i < matrix.height
        invariant
            0 <= i <= matrix.height,
            matrix.wf(),
            matrix@.len() == matrix.height,
            forall|r: int| 0 <= r < matrix@.len() ==> (#[trigger] matrix@[r]).len() == matrix.width,
            out@ == text_render(matrix@.subrange(0, i as int)),
        decreases matrix.height - i,
    {
        let ghost row = matrix@[i as int];
        let mut j: usize = 0;
        while j < matrix.width
            invariant
                0 <= j <= matrix.width,
                0 <= i < matrix.height,
                matrix.wf(),
                matrix@.len() == matrix.height,
                forall|r: int|
                    0 <= r < matrix@.len() ==> (#[trigger] matrix@[r]).len() == matrix.width,
                row == matrix@[i as int],
                out@ == text_render(matrix@.subrange(0, i as int)) + text_row(
                    row.subrange(0, j as int),
                ),
            decreases matrix.width - j,
        {
            let ghost out_before = out@;
            if matrix.get(i, j) {
                out.append("\u{2588}\u{2588}");
                proof {
                    reveal_strlit("\u{2588}\u{2588}");
                    assert(out@ =~= out_before + seq!['\u{2588}', '\u{2588}']);
                }
            } else {
                out.append("  ");
                proof {
                    reveal_strlit("  ");
                    assert(out@ =~= out_before + seq![' ', ' ']);
                }
            }
            proof {
                assert(text_row(row.subrange(0, j + 1)) =~= text_row(row.subrange(0, j as int))
                    + (if row[j as int] {
                    seq!['\u{2588}', '\u{2588}']
                } else {
                    seq![' ', ' ']
                }));
                assert(out@ =~= text_render(matrix@.subrange(0, i as int)) + text_row(
                    row.subrange(0, j + 1),
                ));
            }
            j += 1;
        }
        let ghost out_before = out@;
        out.append("\n");
        proof {
            reveal_strlit("\n");
            assert(row.subrange(0, matrix.width as int) =~= row);
            let pre = matrix@.subrange(0, i as int);
            let ext = matrix@.subrange(0, i + 1);
            assert(ext.drop_last() =~= pre);
            assert(ext.last() == row);
            assert(out@ =~= text_render(pre) + text_row(row).push('\n'));
            assert(out@ =~= text_render(ext));
        }
        i += 1;
    }
    proof {
        assert(matrix@.subrange(0, matrix.height as int) =~= matrix@);
    }
    out
}

/// Builds the matrix's grayscale pixel buffer, one pixel per module,
/// row-major, dark as 0 and light as 255.
pub fn qr_pixels(matrix: &QrMatrix) -> (r: Vec<u8>)
    requires
        matrix.wf(),
    ensures
        r@ == pixels_flat(matrix@),
        r@.len() == matrix.width * matrix.height,
{
    proof {
        matrix.lemma_row_len();
        lemma_pixels_flat_len(matrix@, matrix.width as int);
        assert(matrix.height * matrix.width == matrix.width * matrix.height) by (nonlinear_arith);
    }
    let mut out: Vec<u8> = Vec::new();
    let mut i: usize = 0;
    while i < matrix.height
        invariant
            0 <= i <= matrix.height,
            matrix.wf(),
            matrix@.len() == matrix.height,
            forall|r: int| 0 <= r < matrix@.len() ==> (#[trigger] matrix@[r]).len() == matrix.width,
            out@ == pixels_flat(matrix@.subrange(0, i as int)),
        decreases matrix.height - i,
    {
        let ghost row = matrix@[i as int];
        let mut j: usize = 0;
        while j < matrix.width
            invariant
                0 <= j <= matrix.width,
                0 <= i < matrix.height,
                matrix.wf(),
                matrix@.len() == matrix.height,
                forall|r: int|
                    0 <= r < matrix@.len() ==> (#[trigger] matrix@[r]).len() == matrix.width,
                row == matrix@[i as int],
                out@ == pixels_flat(matrix@.subrange(0, i as int)) + pixel_row(
                    row.subrange(0, j as int),
                ),
            decreases matrix.width - j,
        {
            if matrix.get(i, j) {
                out.push(0u8);
            } else {
                out.push(255u8);
            }
            proof {
                assert(pixel_row(row.subrange(0, j + 1)) =~= pixel_row(row.subrange(0, j as int))
                    + seq![pixel_of(row[j as int])]);
                assert(out@ =~= pixels_flat(matrix@.subrange(0, i as int)) + pixel_row(
                    row.subrange(0, j + 1),
                ));
            }
            j += 1;
        }
        proof {
            assert(row.subrange(0, matrix.width as int) =~= row);
            let pre = matrix@.subrange(0, i as int);
            let ext = matrix@.subrange(0, i + 1);
            assert(ext.drop_last() =~= pre);
            assert(ext.last() == row);
            assert(out@ =~= pixels_flat(ext));
        }
        i += 1;
    }
    proof {
        assert(matrix@.subrange(0, matrix.height as int) =~= matrix@);
    }
    out
}

/// Encodes the matrix as a PNG image at one pixel per module.
pub fn qrcode_image_bytes(matrix: &QrMatrix) -> (r: Vec<u8>)
    requires
        matrix.wf(),
        1 <= matrix.width <= u32::MAX,
        1 <= matrix.height <= u32::MAX,
    ensures
        r@ == png_of(matrix.width as int, matrix.height as int, pixels_flat(matrix@)),
{
    let pixels = qr_pixels(matrix);
    encode_png(matrix.width as u32, matrix.height as u32, pixels)
}

/// One rendered response: its body and its content type.
pub struct RenderOutput {
    pub body: Vec<u8>,
    pub content_type: String,
}

/// The body bytes `render` produces for a matrix and a render type.
pub open spec fn render_bytes(width: int, height: int, rows: Seq<Seq<bool>>, ty: Type) -> Seq<u8> {
    match ty {
        Type::Utf8Text => encode_utf8(text_render(rows)),
        Type::Image => png_of(width, height, pixels_flat(rows)),
        Type::ImageHtmlEmbed => encode_utf8(
            html_page(base64_of(png_of(width, height, pixels_flat(rows)))),
        ),
    }
}

/// Renders the matrix in the given representation. Total over all three
/// render types, and a function of the matrix and type alone: the body is
/// exactly `render_bytes` and the content type exactly `content_type_chars`.
pub fn render(matrix: &QrMatrix, ty: Type) -> (r: RenderOutput)
    requires
        matrix.wf(),
        1 <= matrix.width <= u32::MAX,
        1 <= matrix.height <= u32::MAX,
    ensures
        r.body@ == render_bytes(matrix.width as int, matrix.height as int, matrix@, ty),
        r.content_type@ == content_type_chars(ty),
{
    match ty {
        Type::Utf8Text => {
            let body = utf8_text(matrix);
            RenderOutput {
                body: body.as_str().as_bytes_vec(),
                content_type: String::from_str("text/html; charset=UTF-8"),
            }
        },
        Type::Image => RenderOutput {
            body: qrcode_image_bytes(matrix),
            content_type: String::from_str("image/png"),
        },
        Type::ImageHtmlEmbed => {
            let png = qrcode_image_bytes(matrix);
            let b64 = base64_encode(&png);
            let page = html_body_b64_image(b64.as_str());
            RenderOutput {
                body: page.as_str().as_bytes_vec(),
                content_type: String::from_str("text/html; charset=UTF-8"),
            }
        },
    }
}

/// Line `r` of a glyph rendering whose rows are `w` modules wide.
pub open spec fn render_line(rows: Seq<Seq<bool>>, w: int, r: int) -> Seq<char> {
    text_render(rows).subrange(r * (2 * w + 1), (r + 1) * (2 * w + 1))
}

/// Law: the glyph rendering of a matrix with `rows.len()` rows, each `w`
/// modules wide, consists of exactly `rows.len()` lines, each being the
/// `2 * w` glyph characters of its row followed by one newline.
pub proof fn lemma_text_render_lines(rows: Seq<Seq<bool>>, w: int)
    requires
        w >= 0,
        forall|r: int| 0 <= r < rows.len() ==> (#[trigger] rows[r]).len() == w,
    ensures
        text_render(rows).len() == rows.len() * (2 * w + 1),
        forall|r: int|
            0 <= r < rows.len() ==> render_line(rows, w, r) == text_row(rows[r]).push('\n'),
    decreases rows.len(),
{
    let l = 2 * w + 1;
    let n = rows.len() as int;
    if rows.len() == 0 {
        assert(n * l == 0) by (nonlinear_arith)
            requires
                n == 0,
        ;
    } else {
        let dl = rows.drop_last();
        lemma_text_render_lines(dl, w);
        assert((n - 1) * l + l == n * l) by (nonlinear_arith);
        assert(text_render(rows).len() == n * l);
        assert forall|r: int| 0 <= r < rows.len() implies render_line(rows, w, r) == text_row(
            rows[r],
        ).push('\n') by {
            assert(0 <= r * l && r * l + l <= n * l && (r + 1) * l == r * l + l && (r < n - 1
                ==> r * l + l <= (n - 1) * l)) by (nonlinear_arith)
                requires
                    0 <= r < n,
                    l >= 1,
            ;
            if r < n - 1 {
                assert(render_line(rows, w, r) =~= render_line(dl, w, r));
            } else {
                assert((n - 1) * l == text_render(dl).len());
                assert(render_line(rows, w, r) =~= text_row(rows.last()).push('\n'));
            }
        }
    }
}

/// Law: every character of a row's glyph text is a full block or a space —
/// in particular, never a newline.
pub proof fn lemma_text_row_glyphs(row: Seq<bool>, j: int)
    requires
        0 <= j < 2 * row.len(),
    ensures
        text_row(row)[j] == '\u{2588}' || text_row(row)[j] == ' ',
        text_row(row)[j] != '\n',
{
}

} // verus!
