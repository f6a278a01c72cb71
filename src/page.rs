use vstd::prelude::*;
use vstd::utf8::{decode_utf8, valid_utf8};

verus! {

/// The HTML of a markdown text under all of the CommonMark extensions.
pub uninterp spec fn markdown_html(text: Seq<char>) -> Seq<char>;

/// Relies on `pulldown_cmark::html::push_html` fed by
/// `pulldown_cmark::Parser::new_ext(text, Options::all())`: it appends the HTML
/// of `text` to `out`, and that HTML depends on `text` alone.
#[verifier::external_body]
fn push_markdown_html(out: &mut String, text: &str)
    ensures
        final(out)@ == old(out)@ + markdown_html(text@),
{
    let parser = pulldown_cmark::Parser::new_ext(text, pulldown_cmark::Options::all());
    pulldown_cmark::html::push_html(out, parser);
}

/// Renders a markdown text to HTML.
pub fn render(text: &str) -> (r: String)
    ensures
        r@ == markdown_html(text@),
{
    let mut out = String::new();
    push_markdown_html(&mut out, text);
    out
}

/// A source file that is not valid UTF-8 text.
#[derive(PartialEq, Eq, Structural, Clone, Copy, Debug)]
pub struct DecodeError;

/// Relies on `std::str::from_utf8`: the text of the bytes exactly when they
/// are valid UTF-8.
#[verifier::external_body]
fn utf8_text<'a>(b: &'a [u8]) -> (r: Option<&'a str>)
    ensures
        r is Some <==> valid_utf8(b@),
        r matches Some(s) ==> s@ == decode_utf8(b@),
{
    std::str::from_utf8(b).ok()
}

/// Renders the bytes of a source file; refused when they are not UTF-8.
pub fn render_source(src: &[u8]) -> (r: Result<String, DecodeError>)
    ensures
        r is Err <==> !valid_utf8(src@),
        r matches Ok(h) ==> h@ == markdown_html(decode_utf8(src@)),
{
    match utf8_text(src) {
        Some(text) => Ok(render(text)),
        None => Err(DecodeError),
    }
}

/// The page shell that wraps every rendered document; `{{md}}` marks where the
/// document goes.
pub const INDEX_HTML: &'static str = "<!DOCTYPE html>\n<html>\n<head>\n<meta charset=\"utf-8\">\n<link rel=\"stylesheet\" href=\"/index.css\">\n<script src=\"/index.js\"></script>\n</head>\n<body>\n<main>{{md}}</main>\n</body>\n</html>\n";

/// The mark that stands for the document in a page shell.
pub const SLOT: &'static str = "{{md}}";

/// The body of the page served for an unknown route.
pub const NOT_FOUND_BODY: &'static str = "<h1>Error 404: Page not found</h1>";

/// Whether `pat` occurs in `s` at position `i`.
pub open spec fn occurs_at(s: Seq<char>, pat: Seq<char>, i: int) -> bool {
    0 <= i && i + pat.len() <= s.len() && s.subrange(i, i + pat.len()) == pat
}

/// `i` is the first position at which `pat` occurs in `s`.
pub open spec fn first_occurrence(s: Seq<char>, pat: Seq<char>, i: int) -> bool {
    occurs_at(s, pat, i) && forall|j: int| 0 <= j < i ==> !occurs_at(s, pat, j)
}

/// The first position of `pat` in `s`, if it occurs.
fn find(s: &str, pat: &str) -> (r: Option<usize>)
    ensures
        r matches Some(i) ==> first_occurrence(s@, pat@, i as int),
        r is None ==> forall|j: int| !occurs_at(s@, pat@, j),
{
    let n = s.unicode_len();
    let m = pat.unicode_len();
    if m > n {
        return None;
    }
    let mut i: usize = 0;
    loop
        invariant
            n == s@.len(),
            m == pat@.len(),
            m <= n,
            i <= n - m,
            forall|j: int| 0 <= j < i ==> !occurs_at(s@, pat@, j),
        decreases n - m - i,
    {
        if matches_here(s, i, pat) {
            return Some(i);
        }
        if i == n - m {
            return None;
        }
        i = i + 1;
    }
}

/// Whether `pat` occurs in `s` at position `i`.
fn matches_here(s: &str, i: usize, pat: &str) -> (r: bool)
    requires
        i <= s@.len(),
    ensures
        r == occurs_at(s@, pat@, i as int),
{
    let n = s.unicode_len();
    let m = pat.unicode_len();
    if m > n - i {
        return false;
    }
    let mut k: usize = 0;
    while k < m
        invariant
            k <= m,
            m == pat@.len(),
            n == s@.len(),
            i + m <= n,
            forall|j: int| 0 <= j < k ==> s@[i + j] == pat@[j],
        decreases m - k,
    {
        if s.get_char(i + k) != pat.get_char(k) {
            assert(s@.subrange(i as int, i + m)[k as int] != pat@[k as int]);
            return false;
        }
        k = k + 1;
    }
    assert(s@.subrange(i as int, i + m) =~= pat@);
    true
}

/// A page shell split at its slot, with the not-found page made from it.
pub struct Template {
    before: String,
    after: String,
    not_found: String,
}

impl Template {
    /// The shell text before the slot.
    pub closed spec fn before_view(&self) -> Seq<char> {
        self.before@
    }

    /// The shell text after the slot.
    pub closed spec fn after_view(&self) -> Seq<char> {
        self.after@
    }

    /// The not-found page.
    pub closed spec fn not_found_view(&self) -> Seq<char> {
        self.not_found@
    }

    /// The shell split at the first slot of `page`: nothing when `page` holds
    /// no slot.
    pub fn from_page(page: &str) -> (r: Option<Template>)
        ensures
            r is None <==> forall|j: int| !occurs_at(page@, SLOT@, j),
            r matches Some(t) ==> exists|i: int|
                {
                    &&& first_occurrence(page@, SLOT@, i)
                    &&& t.before_view() == page@.subrange(0, i)
                    &&& t.after_view() == page@.subrange(i + SLOT@.len(), page@.len() as int)
                },
            r matches Some(t) ==> t.not_found_view() == t.before_view() + NOT_FOUND_BODY@
                + t.after_view(),
    {
        match find(page, SLOT) {
            None => None,
            Some(i) => {
                let n = page.unicode_len();
                let m = SLOT.unicode_len();
                let before = String::from_str(page.substring_char(0, i));
                let after = String::from_str(page.substring_char(i + m, n));
                let mut not_found = before.clone();
                not_found.append(NOT_FOUND_BODY);
                not_found.append(after.as_str());
                Some(Template { before, after, not_found })
            },
        }
    }

    /// The served page of a rendered document: the document inside the shell.
    pub fn html(&self, s: &str) -> (r: String)
        ensures
            r@ == self.before_view() + s@ + self.after_view(),
    {
        let mut html = self.before.clone();
        html.append(s);
        html.append(self.after.as_str());
        html
    }

    /// The not-found page.
    pub fn not_found(&self) -> (r: String)
        ensures
            r@ == self.not_found_view(),
    {
        self.not_found.clone()
    }
}

} // verus!
