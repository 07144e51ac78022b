//! Serving the panel's static files: which file a request names, its
//! content type and how long it may be cached.
use crate::text::{chars_of, owned, slice_skip, str_eq, string_of};
use vstd::prelude::*;

verus! {

/// The path with its leading `/` characters removed.
pub open spec fn asset_path_s(p: Seq<char>) -> Seq<char>
    decreases p.len(),
{
    if p.len() > 0 && p[0] == '/' {
        asset_path_s(p.drop_first())
    } else {
        p
    }
}

/// The asset a request path names (`trim_start_matches('/')`).
pub fn asset_path(uri_path: &str) -> (r: String)
    ensures
        r@ == asset_path_s(uri_path@),
{
    let c = chars_of(uri_path);
    let mut i: usize = 0;
    assert(c@.skip(0) =~= c@);
    while i < c.len() && c[i] == '/'
        invariant
            i <= c@.len(),
            asset_path_s(c@) == asset_path_s(c@.skip(i as int)),
        decreases c@.len() - i,
    {
        assert(c@.skip(i as int).drop_first() =~= c@.skip(i + 1));
        i += 1;
    }
    string_of(slice_skip(c.as_slice(), i).as_slice())
}

/// `index.html` is never cached; the hashed build files are cached for a
/// year.
pub fn cache_control(path: &str) -> (r: &'static str)
    ensures
        path@ == "index.html"@ ==> r@ == "no-cache"@,
        path@ != "index.html"@ ==> r@ == "public, max-age=31536000, immutable"@,
{
    if str_eq(path, "index.html") {
        "no-cache"
    } else {
        "public, max-age=31536000, immutable"
    }
}

/// The content type `mime_guess` gives a path's extension.
pub uninterp spec fn guessed_mime(path: Seq<char>) -> Seq<char>;

/// `mime_guess::from_path(path).first_or_octet_stream()`, as text.  Named
/// by `guessed_mime`.
#[verifier::external_body]
fn mime_of(path: &str) -> (r: String)
    ensures
        r@ == guessed_mime(path@),
{
    mime_guess::from_path(path).first_or_octet_stream().to_string()
}

/// The content type a file is served with.
pub fn content_type(path: &str) -> (r: String)
    ensures
        r@ == guessed_mime(path@),
{
    mime_of(path)
}

/// The text shown when the panel's files are missing.
pub fn missing_frontend_text() -> (r: &'static str)
    ensures
        r@ == "前端构建产物缺失。请在 apps/web/ 跑 `npm install && npm run build`。"@,
{
    "前端构建产物缺失。请在 apps/web/ 跑 `npm install && npm run build`。"
}

} // verus!
