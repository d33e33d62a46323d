//! Content negotiation: the `Accept`-header classifier, the path-extension
//! classifier, and the resolver that merges their proposals with the
//! disallow-list into one render decision.

use vstd::prelude::*;
use vstd::string::StrSliceExecFns;

use crate::render::Type;
use crate::text::after_last;
use crate::text::is_space;
use crate::text::is_space_char;
use crate::text::lemma_after_last_at;
use crate::text::lemma_after_last_props;
use crate::text::lemma_scan_to_at;
use crate::text::lemma_scan_to_bounds;
use crate::text::lemma_trim_range;
use crate::text::range_eq_lit;
use crate::text::scan_to;
use crate::text::str_eq;
use crate::text::trim;
use crate::text::trim_end;
use crate::text::trim_start;
use crate::text::truncate;
use crate::text::truncate_str;

verus! {

/// The render type proposed by one `Accept` token, if it is recognized.
pub open spec fn token_class(t: Seq<char>) -> Option<Type> {
    if t == "text/html"@ {
        Some(Type::ImageHtmlEmbed)
    } else if t == "image/png"@ || t == "image/*"@ {
        Some(Type::Image)
    } else if t == "*/*"@ {
        Some(Type::Utf8Text)
    } else {
        None
    }
}

/// The class of the first recognized token of `s` at or after position `i`,
/// where tokens are comma-separated and trimmed of surrounding whitespace.
pub open spec fn accept_class_from(s: Seq<char>, i: int) -> Option<Type>
    decreases s.len() - i,
    when 0 <= i <= s.len()
    via accept_class_from_decreases
{
    let j = scan_to(s, i, ',');
    let tok = trim(s.subrange(i, j));
    if token_class(tok) is Some {
        token_class(tok)
    } else if j >= s.len() {
        None
    } else {
        accept_class_from(s, j + 1)
    }
}

#[via_fn]
proof fn accept_class_from_decreases(s: Seq<char>, i: int) {
    lemma_scan_to_bounds(s, i, ',');
}

/// The render type proposed by an `Accept` header: the class of its first
/// recognized comma-separated token, after truncation.
pub open spec fn accept_class(accept: Seq<char>) -> Option<Type> {
    accept_class_from(truncate(accept), 0)
}

/// The render type proposed by a path's file extension: the trimmed suffix
/// after the last `.` of the segment after the last `/`, when that segment
/// has a dot at all.
pub open spec fn ext_class(p: Seq<char>) -> Option<Type> {
    let seg = p.subrange(after_last(p, '/'), p.len() as int);
    if !(exists|k: int| 0 <= k < seg.len() && seg[k] == '.') {
        None
    } else {
        let ext = trim(seg.subrange(after_last(seg, '.'), seg.len() as int));
        if ext == "htm"@ || ext == "html"@ {
            Some(Type::ImageHtmlEmbed)
        } else if ext == "png"@ || ext == "jpg"@ || ext == "jpeg"@ || ext == "gif"@ || ext
            == "webp"@ {
            Some(Type::Image)
        } else {
            None
        }
    }
}

/// The proposal, or the given default when there is none.
pub open spec fn or_default(o: Option<Type>, d: Type) -> Type {
    match o {
        Some(t) => t,
        None => d,
    }
}

/// The resolved decision for a request: `None` for a disallowed path,
/// otherwise the render type, with a restrictive `Accept` proposal taken
/// verbatim, a permissive one overridden by the extension, and the extension
/// alone (or the `Image` default) when `Accept` proposes nothing.
pub open spec fn resolve_spec(path: Seq<char>, accept: Seq<char>) -> Option<Type> {
    let p = truncate(path);
    if p == "/favicon.ico"@ || p == "/robots.txt"@ {
        None
    } else {
        match accept_class(accept) {
            Some(Type::Utf8Text) => Some(Type::Utf8Text),
            Some(Type::Image) => Some(Type::Image),
            Some(Type::ImageHtmlEmbed) => Some(or_default(ext_class(p), Type::ImageHtmlEmbed)),
            None => Some(or_default(ext_class(p), Type::Image)),
        }
    }
}

/// Returns the render type proposed by the first recognized MIME token of
/// the `Accept` header, if any.
pub fn parse_accept_type(accept_header: &str) -> (r: Option<Type>)
    ensures
        r == accept_class(accept_header@),
{
    let acc: &str = truncate_str(accept_header);
    let n: usize = acc.unicode_len();
    let mut i: usize = 0;
    loop
        invariant
            0 <= i <= n,
            n == acc@.len(),
            acc@ == truncate(accept_header@),
            accept_class(accept_header@) == accept_class_from(acc@, i as int),
        decreases n - i,
    {
        let ghost s = acc@;
        // Find the end of the current token.
        let mut j: usize = i;
        while j < n && acc.get_char(j) != ','
            invariant
                i <= j <= n,
                n == s.len(),
                acc@ == s,
                forall|k: int| i <= k < j ==> s[k] != ',',
            decreases n - j,
        {
            j += 1;
        }
        proof {
            lemma_scan_to_at(s, i as int, j as int, ',');
        }
        // Trim surrounding whitespace.
        let mut a: usize = i;
        while a < j && is_space_char(acc.get_char(a))
            invariant
                i <= a <= j <= n,
                n == s.len(),
                acc@ == s,
                forall|k: int| i <= k < a ==> is_space(s[k]),
            decreases j - a,
        {
            a += 1;
        }
        let mut b: usize = j;
        while b > a && is_space_char(acc.get_char(b - 1))
            invariant
                a <= b <= j <= n,
                n == s.len(),
                acc@ == s,
                forall|k: int| b <= k < j ==> is_space(s[k]),
            decreases b - a,
        {
            b -= 1;
        }
        proof {
            lemma_trim_range(s, i as int, j as int, a as int, b as int);
        }
        if range_eq_lit(acc, a, b, "text/html") {
            return Some(Type::ImageHtmlEmbed);
        }
        if range_eq_lit(acc, a, b, "image/png") || range_eq_lit(acc, a, b, "image/*") {
            return Some(Type::Image);
        }
        if range_eq_lit(acc, a, b, "*/*") {
            return Some(Type::Utf8Text);
        }
        if j == n {
            return None;
        }
        i = j + 1;
    }
}

/// Returns the render type implied by the path's file extension, if any.
///
/// Text is deliberately excluded here: the glyph rendering is meant for
/// clients that ask for it through `Accept`, not through the URL.
pub fn parse_extension_type(uri_path: &str) -> (r: Option<Type>)
    ensures
        r == ext_class(truncate(uri_path@)),
{
    let p: &str = truncate_str(uri_path);
    let n: usize = p.unicode_len();
    let ghost s = p@;
    // Find the start of the final path segment.
    let mut a: usize = n;
    while a > 0 && p.get_char(a - 1) != '/'
        invariant
            0 <= a <= n,
            n == s.len(),
            p@ == s,
            forall|k: int| a <= k < n ==> s[k] != '/',
        decreases a,
    {
        a -= 1;
    }
    proof {
        lemma_after_last_at(s, '/', a as int);
    }
    let ghost seg = s.subrange(a as int, n as int);
    // Find the last dot of the segment.
    let mut e: usize = n;
    while e > a && p.get_char(e - 1) != '.'
        invariant
            a <= e <= n,
            n == s.len(),
            p@ == s,
            forall|k: int| e <= k < n ==> s[k] != '.',
        decreases e,
    {
        e -= 1;
    }
    if e == a {
        proof {
            assert(forall|k: int| 0 <= k < seg.len() ==> seg[k] == s[a + k] && seg[k] != '.');
        }
        return None;
    }
    proof {
        assert(seg[e - a - 1] == s[e - 1]);
        assert(exists|k: int| 0 <= k < seg.len() && seg[k] == '.') by {
            assert(seg[e - a - 1] == '.');
        }
        lemma_after_last_at(seg, '.', e - a);
        assert(seg.subrange(e - a, seg.len() as int) =~= s.subrange(e as int, n as int));
    }
    // Trim the extension.
    let mut ta: usize = e;
    while ta < n && is_space_char(p.get_char(ta))
        invariant
            e <= ta <= n,
            n == s.len(),
            p@ == s,
            forall|k: int| e <= k < ta ==> is_space(s[k]),
        decreases n - ta,
    {
        ta += 1;
    }
    let mut tb: usize = n;
    while tb > ta && is_space_char(p.get_char(tb - 1))
        invariant
            ta <= tb <= n,
            n == s.len(),
            p@ == s,
            forall|k: int| tb <= k < n ==> is_space(s[k]),
        decreases tb - ta,
    {
        tb -= 1;
    }
    proof {
        lemma_trim_range(s, e as int, n as int, ta as int, tb as int);
    }
    if range_eq_lit(p, ta, tb, "htm") || range_eq_lit(p, ta, tb, "html") {
        Some(Type::ImageHtmlEmbed)
    } else if range_eq_lit(p, ta, tb, "png") || range_eq_lit(p, ta, tb, "jpg") || range_eq_lit(
        p,
        ta,
        tb,
        "jpeg",
    ) || range_eq_lit(p, ta, tb, "gif") || range_eq_lit(p, ta, tb, "webp") {
        Some(Type::Image)
    } else {
        None
    }
}

/// Returns the render type for the request, or `None` for disallowed paths.
///
/// The disallow check runs first and short-circuits all classification; a
/// restrictive `Accept` proposal (`Utf8Text`, `Image`) is used verbatim; the
/// permissive `ImageHtmlEmbed` proposal and the absence of any proposal both
/// fall back to the path extension, with `ImageHtmlEmbed` respectively
/// `Image` as the last resort.
pub fn parse_render_type(uri_path: &str, accept_header: &str) -> (r: Option<Type>)
    ensures
        r == resolve_spec(uri_path@, accept_header@),
{
    let p: &str = truncate_str(uri_path);
    if str_eq(p, "/favicon.ico") || str_eq(p, "/robots.txt") {
        return None;
    }
    proof {
        crate::text::lemma_truncate_idempotent(uri_path@);
    }
    let ty = match parse_accept_type(accept_header) {
        Some(Type::Utf8Text) => Type::Utf8Text,
        Some(Type::Image) => Type::Image,
        Some(Type::ImageHtmlEmbed) => match parse_extension_type(p) {
            Some(t) => t,
            None => Type::ImageHtmlEmbed,
        },
        None => match parse_extension_type(p) {
            Some(t) => t,
            None => Type::Image,
        },
    };
    Some(ty)
}

/// Law: a path on the disallow-list is rejected, whatever the `Accept`
/// header holds.
pub proof fn lemma_disallowed_path_rejected(path: Seq<char>, accept: Seq<char>)
    requires
        path == "/favicon.ico"@ || path == "/robots.txt"@,
    ensures
        resolve_spec(path, accept) is None,
{
    reveal_strlit("/favicon.ico");
    reveal_strlit("/robots.txt");
}

/// Law: when the `Accept` header's first recognized token proposes a
/// restrictive type — glyph text or the raw image — the resolver returns it
/// verbatim, whatever extension the (allowed) path carries.
pub proof fn lemma_restrictive_accept_wins(path: Seq<char>, accept: Seq<char>, ty: Type)
    requires
        truncate(path) != "/favicon.ico"@,
        truncate(path) != "/robots.txt"@,
        accept_class(accept) == Some(ty),
        ty == Type::Utf8Text || ty == Type::Image,
    ensures
        resolve_spec(path, accept) == Some(ty),
{
}

/// Law: when the `Accept` header's first recognized token is `text/html` —
/// the permissive signal — a path ending in `.png` overrides it and the
/// resolver yields the raw image.
pub proof fn lemma_extension_overrides_html(path: Seq<char>, accept: Seq<char>)
    requires
        path.len() <= crate::TRUNCATE_LEN,
        4 <= path.len(),
        path.subrange(path.len() - 4, path.len() as int) == ".png"@,
        accept_class(accept) == Some(Type::ImageHtmlEmbed),
    ensures
        resolve_spec(path, accept) == Some(Type::Image),
{
    reveal_strlit("/favicon.ico");
    reveal_strlit("/robots.txt");
    reveal_strlit(".png");
    reveal_strlit("png");
    let n = path.len() as int;
    let tail = path.subrange(n - 4, n);
    assert(path[n - 4] == tail[0] && path[n - 3] == tail[1] && path[n - 2] == tail[2] && path[n
        - 1] == tail[3]);
    assert(path != "/favicon.ico"@) by {
        if path == "/favicon.ico"@ {
            assert(path[9] == 'i' && path[n - 3] == 'p');
        }
    }
    assert(path != "/robots.txt"@) by {
        if path == "/robots.txt"@ {
            assert(path[8] == 't' && path[n - 3] == 'p');
        }
    }
    lemma_after_last_props(path, '/');
    let a = after_last(path, '/');
    assert(a <= n - 4) by {
        if a > n - 4 {
            assert(path[a - 1] == '/');
        }
    }
    let seg = path.subrange(a, n);
    let m = seg.len() as int;
    assert(seg[m - 4] == path[n - 4] && seg[m - 3] == path[n - 3] && seg[m - 2] == path[n - 2]
        && seg[m - 1] == path[n - 1]);
    assert(exists|k: int| 0 <= k < seg.len() && seg[k] == '.') by {
        assert(seg[m - 4] == '.');
    }
    lemma_after_last_at(seg, '.', m - 3);
    let ext_raw = seg.subrange(m - 3, m);
    assert(ext_raw =~= "png"@);
    assert(trim(ext_raw) == ext_raw) by {
        assert(trim_start(ext_raw) == ext_raw);
        assert(trim_end(ext_raw) == ext_raw);
    }
    reveal_strlit("htm");
    reveal_strlit("html");
    assert(ext_class(path) == Some(Type::Image));
}

/// Law: with an empty `Accept` header and an (allowed) path whose final
/// segment has no extension, the resolver falls back to the global default,
/// the raw image.
pub proof fn lemma_default_is_image(path: Seq<char>)
    requires
        path.len() <= crate::TRUNCATE_LEN,
        path != "/favicon.ico"@,
        path != "/robots.txt"@,
        forall|k: int| after_last(path, '/') <= k < path.len() ==> path[k] != '.',
    ensures
        resolve_spec(path, Seq::<char>::empty()) == Some(Type::Image),
{
    let empty = Seq::<char>::empty();
    assert(accept_class(empty) is None) by {
        assert(truncate(empty) == empty);
        assert(scan_to(empty, 0, ',') == 0);
        let tok = trim(empty.subrange(0, 0));
        assert(empty.subrange(0, 0) =~= empty);
        assert(trim_start(empty) == empty && trim_end(empty) == empty);
        reveal_strlit("text/html");
        reveal_strlit("image/png");
        reveal_strlit("image/*");
        reveal_strlit("*/*");
        assert(token_class(tok) is None);
    }
    let a = after_last(path, '/');
    lemma_after_last_props(path, '/');
    let seg = path.subrange(a, path.len() as int);
    assert(ext_class(path) is None) by {
        assert(forall|k: int| 0 <= k < seg.len() ==> seg[k] == path[a + k] && seg[k] != '.');
    }
}

} // verus!
