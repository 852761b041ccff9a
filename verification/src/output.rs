//! What the build writes besides the pages themselves: where each page goes,
//! the sitemap and robots.txt.
use vstd::prelude::*;
use vstd::string::*;

use crate::render::shell::{is_root, Page, SITE_URL};
use crate::render::text::{trim_bounds, trim_edges};
use crate::strings::{chars_vec, owned, push_range, same_text};

verus! {

/// The directory of a page below the output root: its path without the
/// slashes at either end (`""` for the root page, which lives at the top).
pub open spec fn page_dir_spec(path: Seq<char>) -> Seq<char> {
    trim_edges(path, '/')
}

/// Where a page is written, relative to the output root; the file inside it
/// is `index.html`.
pub fn page_dir(path: &str) -> (r: String)
    ensures
        r@ == page_dir_spec(path@),
{
    let v = chars_vec(path);
    let (a, b) = trim_bounds(&v, '/');
    let mut s = String::new();
    push_range(&mut s, &v, a, b);
    assert(s@ =~= page_dir_spec(path@));
    s
}

/// The absolute URL of a page in the sitemap.
pub open spec fn page_loc(path: Seq<char>) -> Seq<char> {
    if is_root(path) {
        SITE_URL@ + "/"@
    } else {
        SITE_URL@ + path
    }
}

pub open spec fn sitemap_entry(path: Seq<char>) -> Seq<char> {
    "  <url><loc>"@ + page_loc(path) + "</loc><changefreq>weekly</changefreq><priority>"@ + (if is_root(
        path,
    ) {
        "1.0"@
    } else {
        "0.8"@
    }) + "</priority></url>\n"@
}

pub open spec fn sitemap_entries(pages: Seq<Page>, n: int) -> Seq<char>
    decreases n,
{
    if n <= 0 {
        seq![]
    } else {
        sitemap_entries(pages, n - 1) + sitemap_entry(pages[n - 1].path@)
    }
}

/// One `<url>` per page, in order; the home page has priority 1.0, the
/// others 0.8.
pub open spec fn sitemap_spec(pages: Seq<Page>) -> Seq<char> {
    "<?xml version=\"1.0\" encoding=\"UTF-8\"?>\n<urlset xmlns=\"http://www.sitemaps.org/schemas/sitemap/0.9\">\n"@
        + sitemap_entries(pages, pages.len() as int) + "</urlset>\n"@
}

pub fn sitemap(pages: &[Page]) -> (r: String)
    ensures
        r@ == sitemap_spec(pages@),
{
    let mut entries = String::new();
    let mut i: usize = 0;
    assert(entries@ =~= sitemap_entries(pages@, 0));
    while i < pages.len()
        invariant
            i <= pages@.len(),
            entries@ == sitemap_entries(pages@, i as int),
        decreases pages@.len() - i,
    {
        let path = pages[i].path;
        let root = same_text(path, "/");
        let mut e = owned("  <url><loc>");
        let mut loc = owned(SITE_URL);
        if root {
            loc.append("/");
        } else {
            loc.append(path);
        }
        e.append(loc.as_str());
        e.append("</loc><changefreq>weekly</changefreq><priority>");
        if root {
            e.append("1.0");
        } else {
            e.append("0.8");
        }
        e.append("</priority></url>\n");
        entries.append(e.as_str());
        i += 1;
    }
    let mut s = owned(
        "<?xml version=\"1.0\" encoding=\"UTF-8\"?>\n<urlset xmlns=\"http://www.sitemaps.org/schemas/sitemap/0.9\">\n",
    );
    s.append(entries.as_str());
    s.append("</urlset>\n");
    s
}

pub open spec fn robots_spec() -> Seq<char> {
    "User-agent: *\nAllow: /\n\nSitemap: "@ + SITE_URL@ + "/sitemap.xml\n"@
}

/// robots.txt: everything may be crawled, and the sitemap is named.
pub fn robots_txt() -> (r: String)
    ensures
        r@ == robots_spec(),
{
    let mut s = owned("User-agent: *\nAllow: /\n\nSitemap: ");
    s.append(SITE_URL);
    s.append("/sitemap.xml\n");
    s
}

} // verus!
