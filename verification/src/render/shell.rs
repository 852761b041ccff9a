//! The page frame shared by every page: head, header, footer.
use vstd::prelude::*;
use vstd::string::*;

use crate::render::icon;
use crate::render::text::{esc, escaped, law_escaped_can_be_undone};
use crate::strings::{owned, same_text};

verus! {

pub const SITE_NAME: &'static str = "Open Source Programs";

pub const SITE_URL: &'static str = "https://list-of-opensource-programs.vercel.app";

pub const REPO_URL: &'static str = "https://github.com/yashisrani/List-of-OpenSource-Programs";

pub struct Page<'a> {
    pub title: &'a str,
    pub description: &'a str,
    pub path: &'a str,
    pub nav: &'a str,
    pub body: String,
    /// Extra JSON-LD injected into <head>, already serialized.
    pub json_ld: Option<String>,
}

/// Whether a page path is the site root.
pub open spec fn is_root(path: Seq<char>) -> bool {
    path == "/"@
}

/// The canonical URL of the page at `path`.
pub open spec fn canonical_of(path: Seq<char>) -> Seq<char> {
    if is_root(path) {
        SITE_URL@
    } else {
        SITE_URL@ + path
    }
}

/// The document title of the page at `path` with the given page title.
pub open spec fn full_title_of(path: Seq<char>, title: Seq<char>) -> Seq<char> {
    if is_root(path) {
        SITE_NAME@ + " 2026 - Paid Open Source Internships and Fellowships"@
    } else {
        title + " - "@ + SITE_NAME@
    }
}

pub open spec fn canonical_spec(p: Page) -> Seq<char> {
    canonical_of(p.path@)
}

pub open spec fn full_title_spec(p: Page) -> Seq<char> {
    full_title_of(p.path@, p.title@)
}

pub open spec fn json_ld_spec(p: Page) -> Seq<char> {
    match p.json_ld {
        Some(ld) => "<script type=\"application/ld+json\">"@ + ld@ + "</script>\n"@,
        None => ""@,
    }
}

/// Everything up to and including the opening `<body>` tag.
pub open spec fn head_spec(p: Page) -> Seq<char> {
    "<!doctype html>\n<html lang=\"en\">\n<head>\n"@ + "<meta charset=\"utf-8\">\n"@
        + "<meta name=\"viewport\" content=\"width=device-width, initial-scale=1\">\n"@
        + "<title>"@ + escaped(full_title_spec(p)) + "</title>\n"@
        + "<meta name=\"description\" content=\""@ + escaped(p.description@) + "\">\n"@
        + "<link rel=\"canonical\" href=\""@ + escaped(canonical_spec(p)) + "\">\n"@
        + "<meta name=\"robots\" content=\"index,follow\">\n"@
        + "<meta property=\"og:type\" content=\"website\">\n"@
        + "<meta property=\"og:site_name\" content=\""@ + SITE_NAME@ + "\">\n"@
        + "<meta property=\"og:title\" content=\""@ + escaped(full_title_spec(p)) + "\">\n"@
        + "<meta property=\"og:description\" content=\""@ + escaped(p.description@) + "\">\n"@
        + "<meta property=\"og:url\" content=\""@ + escaped(canonical_spec(p)) + "\">\n"@
        + "<meta name=\"twitter:card\" content=\"summary_large_image\">\n"@
        + "<link rel=\"icon\" href=\"/favicon.svg\" type=\"image/svg+xml\">\n"@
        + "<link rel=\"stylesheet\" href=\"/assets/app.css\">\n"@
        + "<script>try{var t=localStorage.getItem('theme');if(t)document.documentElement.setAttribute('data-theme',t);}catch(e){}</script>\n"@
        + json_ld_spec(p) + "</head>\n<body>\n"@
        + "<a class=\"skip-link\" href=\"#main\">Skip to content</a>\n"@
}

/// One header navigation link; the one whose key is the page's `nav` is
/// marked as the current page.
pub open spec fn nav_link_spec(href: Seq<char>, label: Seq<char>, key: Seq<char>, nav: Seq<char>) -> Seq<char> {
    "<a href=\""@ + href + "\""@ + (if nav == key {
        " aria-current=\"page\""@
    } else {
        ""@
    }) + ">"@ + label + "</a>\n"@
}

pub open spec fn header_spec(p: Page) -> Seq<char> {
    "<header class=\"site-head\"><div class=\"wrap\">\n"@ + "<a class=\"brand\" href=\"/\">"@
        + SITE_NAME@ + "</a>\n"@ + "<nav class=\"nav\" aria-label=\"Main\">\n"@
        + nav_link_spec("/"@, "Programs"@, "programs"@, p.nav@)
        + nav_link_spec("/timeline/"@, "Timeline"@, "timeline"@, p.nav@)
        + nav_link_spec("/start-here/"@, "Start here"@, "start"@, p.nav@)
        + nav_link_spec("/resources/"@, "Resources"@, "resources"@, p.nav@) + "</nav>\n"@
        + "<button class=\"icon-btn theme-btn\" type=\"button\" aria-label=\"Switch theme\">"@
        + icon::SUN@ + "</button>\n"@ + "<a class=\"icon-btn\" href=\""@ + REPO_URL@
        + "\" aria-label=\"View this project on GitHub\" rel=\"noopener\">"@ + icon::GITHUB@
        + "</a>\n"@ + "</div></header>\n"@
}

pub open spec fn footer_spec() -> Seq<char> {
    "<footer class=\"site-foot\"><div class=\"wrap\">\n"@
        + "<div>Community-maintained. Verify every date on the official site before applying.</div>\n"@
        + "<div class=\"foot-right\">\n"@ + "<a href=\""@ + REPO_URL@
        + "\" rel=\"noopener\">Source</a>\n"@ + "<a href=\""@ + REPO_URL@
        + "/blob/main/Readme.md\" rel=\"noopener\">Readme</a>\n"@ + "<a href=\""@ + REPO_URL@
        + "/issues/new\" rel=\"noopener\">Report an outdated entry</a>\n"@
        + "</div>\n</div></footer>\n"@ + "<script src=\"/assets/app.js\" defer></script>\n"@
        + "</body>\n</html>\n"@
}

/// The whole HTML document for a page.
pub open spec fn shell_spec(p: Page) -> Seq<char> {
    head_spec(p) + header_spec(p) + "<main id=\"main\">\n"@ + p.body@ + "\n</main>\n"@
        + footer_spec()
}

fn canonical(p: &Page) -> (r: String)
    ensures
        r@ == canonical_spec(*p),
{
    if same_text(p.path, "/") {
        owned(SITE_URL)
    } else {
        let mut s = owned(SITE_URL);
        s.append(p.path);
        s
    }
}

fn full_title(p: &Page) -> (r: String)
    ensures
        r@ == full_title_spec(*p),
{
    if same_text(p.path, "/") {
        let mut s = owned(SITE_NAME);
        s.append(" 2026 - Paid Open Source Internships and Fellowships");
        s
    } else {
        let mut s = owned(p.title);
        s.append(" - ");
        s.append(SITE_NAME);
        s
    }
}

fn json_ld_script(p: &Page) -> (r: String)
    ensures
        r@ == json_ld_spec(*p),
{
    match &p.json_ld {
        Some(ld) => {
            let mut s = owned("<script type=\"application/ld+json\">");
            s.append(ld.as_str());
            s.append("</script>\n");
            s
        },
        None => owned(""),
    }
}

fn head(p: &Page) -> (r: String)
    ensures
        r@ == head_spec(*p),
{
    let title = esc(full_title(p).as_str());
    let desc = esc(p.description);
    let canon = esc(canonical(p).as_str());
    let mut h = owned("<!doctype html>\n<html lang=\"en\">\n<head>\n");
    h.append("<meta charset=\"utf-8\">\n");
    h.append("<meta name=\"viewport\" content=\"width=device-width, initial-scale=1\">\n");
    h.append("<title>");
    h.append(title.as_str());
    h.append("</title>\n");
    h.append("<meta name=\"description\" content=\"");
    h.append(desc.as_str());
    h.append("\">\n");
    h.append("<link rel=\"canonical\" href=\"");
    h.append(canon.as_str());
    h.append("\">\n");
    h.append("<meta name=\"robots\" content=\"index,follow\">\n");
    // Open Graph / Twitter.
    h.append("<meta property=\"og:type\" content=\"website\">\n");
    h.append("<meta property=\"og:site_name\" content=\"");
    h.append(SITE_NAME);
    h.append("\">\n");
    h.append("<meta property=\"og:title\" content=\"");
    h.append(title.as_str());
    h.append("\">\n");
    h.append("<meta property=\"og:description\" content=\"");
    h.append(desc.as_str());
    h.append("\">\n");
    h.append("<meta property=\"og:url\" content=\"");
    h.append(canon.as_str());
    h.append("\">\n");
    h.append("<meta name=\"twitter:card\" content=\"summary_large_image\">\n");
    h.append("<link rel=\"icon\" href=\"/favicon.svg\" type=\"image/svg+xml\">\n");
    h.append("<link rel=\"stylesheet\" href=\"/assets/app.css\">\n");
    // Set the theme before first paint so a dark-mode user never sees a white
    // flash. Kept inline and tiny for exactly that reason.
    h.append(
        "<script>try{var t=localStorage.getItem('theme');if(t)document.documentElement.setAttribute('data-theme',t);}catch(e){}</script>\n",
    );
    h.append(json_ld_script(p).as_str());
    h.append("</head>\n<body>\n");
    h.append("<a class=\"skip-link\" href=\"#main\">Skip to content</a>\n");
    h
}

fn nav_link(href: &str, label: &str, key: &str, nav: &str) -> (r: String)
    ensures
        r@ == nav_link_spec(href@, label@, key@, nav@),
{
    let mut s = owned("<a href=\"");
    s.append(href);
    s.append("\"");
    if same_text(nav, key) {
        s.append(" aria-current=\"page\"");
    } else {
        s.append("");
    }
    s.append(">");
    s.append(label);
    s.append("</a>\n");
    s
}

fn header(p: &Page) -> (r: String)
    ensures
        r@ == header_spec(*p),
{
    let mut h = owned("<header class=\"site-head\"><div class=\"wrap\">\n");
    h.append("<a class=\"brand\" href=\"/\">");
    h.append(SITE_NAME);
    h.append("</a>\n");
    h.append("<nav class=\"nav\" aria-label=\"Main\">\n");
    h.append(nav_link("/", "Programs", "programs", p.nav).as_str());
    h.append(nav_link("/timeline/", "Timeline", "timeline", p.nav).as_str());
    h.append(nav_link("/start-here/", "Start here", "start", p.nav).as_str());
    h.append(nav_link("/resources/", "Resources", "resources", p.nav).as_str());
    h.append("</nav>\n");
    h.append("<button class=\"icon-btn theme-btn\" type=\"button\" aria-label=\"Switch theme\">");
    h.append(icon::SUN);
    h.append("</button>\n");
    h.append("<a class=\"icon-btn\" href=\"");
    h.append(REPO_URL);
    h.append("\" aria-label=\"View this project on GitHub\" rel=\"noopener\">");
    h.append(icon::GITHUB);
    h.append("</a>\n");
    h.append("</div></header>\n");
    h
}

fn footer() -> (r: String)
    ensures
        r@ == footer_spec(),
{
    let mut h = owned("<footer class=\"site-foot\"><div class=\"wrap\">\n");
    h.append(
        "<div>Community-maintained. Verify every date on the official site before applying.</div>\n",
    );
    h.append("<div class=\"foot-right\">\n");
    h.append("<a href=\"");
    h.append(REPO_URL);
    h.append("\" rel=\"noopener\">Source</a>\n");
    h.append("<a href=\"");
    h.append(REPO_URL);
    h.append("/blob/main/Readme.md\" rel=\"noopener\">Readme</a>\n");
    h.append("<a href=\"");
    h.append(REPO_URL);
    h.append("/issues/new\" rel=\"noopener\">Report an outdated entry</a>\n");
    h.append("</div>\n</div></footer>\n");
    h.append("<script src=\"/assets/app.js\" defer></script>\n");
    h.append("</body>\n</html>\n");
    h
}

/// The full HTML document for a page: head with title, description,
/// canonical link and social tags; header with navigation; the body; footer.
pub fn shell(p: &Page) -> (r: String)
    ensures
        r@ == shell_spec(*p),
{
    let mut h = head(p);
    h.append(header(p).as_str());
    h.append("<main id=\"main\">\n");
    h.append(p.body.as_str());
    h.append("\n</main>\n");
    h.append(footer().as_str());
    h
}

// ---------------------------------------------------------------------------
// The four pages of the site.
// ---------------------------------------------------------------------------

/// Path of page `i`: the programs list, the timeline, the guide and the
/// resources, in that order.
pub open spec fn site_page_path(i: int) -> Seq<char> {
    if i == 0 {
        "/"@
    } else if i == 1 {
        "/timeline/"@
    } else if i == 2 {
        "/start-here/"@
    } else {
        "/resources/"@
    }
}

pub open spec fn site_page_title(i: int) -> Seq<char> {
    if i == 0 {
        "Programs"@
    } else if i == 1 {
        "2026 Timeline"@
    } else if i == 2 {
        "Start here"@
    } else {
        "Resources"@
    }
}

pub open spec fn site_page_description(i: int) -> Seq<char> {
    if i == 0 {
        "A curated list of active open source programs, internships and fellowships for 2026, with stipends, timelines and eligibility for GSoC, Outreachy, LFX, MLH and more."@
    } else if i == 1 {
        "Month-by-month 2026 timeline of open source program deadlines: GSoC organization and contributor applications, Outreachy cohorts, Season of KDE, Hacktoberfest and more."@
    } else if i == 2 {
        "A guide for first-time open source contributors: the most beginner-friendly programs, where to find your first issue by language, non-code ways to contribute, and an eight week learning path."@
    } else {
        "Tools and guides for open source contributors: beginner issue trackers, Git tutorials, open source education and communities for support."@
    }
}

proof fn lemma_differ_at(a: Seq<char>, b: Seq<char>, k: int)
    requires
        0 <= k < a.len(),
        k < b.len(),
        a[k] != b[k],
    ensures
        a != b,
{
}

/// Law: every page has its own title, description and canonical link. For
/// the four pages, the escaped `<title>` text, description and canonical URL
/// that `shell` writes differ between any two of them, and the canonical
/// URL is the site URL followed by the page's path (the bare site URL for
/// the home page).
pub proof fn law_pages_are_distinct()
    ensures
        forall|i: int, j: int|
            0 <= i < j < 4 ==> escaped(full_title_of(site_page_path(i), site_page_title(i)))
                != escaped(full_title_of(site_page_path(j), site_page_title(j))) && escaped(
                site_page_description(i),
            ) != escaped(site_page_description(j)) && escaped(canonical_of(site_page_path(i)))
                != escaped(canonical_of(site_page_path(j))),
        canonical_of(site_page_path(0)) == SITE_URL@,
        forall|i: int| 1 <= i < 4 ==> canonical_of(site_page_path(i)) == SITE_URL@ + site_page_path(i),
{
    reveal_strlit("/");
    reveal_strlit("/timeline/");
    reveal_strlit("/start-here/");
    reveal_strlit("/resources/");
    reveal_strlit("Programs");
    reveal_strlit("2026 Timeline");
    reveal_strlit("Start here");
    reveal_strlit("Resources");
    reveal_strlit("Open Source Programs");
    reveal_strlit(
        "A curated list of active open source programs, internships and fellowships for 2026, with stipends, timelines and eligibility for GSoC, Outreachy, LFX, MLH and more.",
    );
    reveal_strlit(
        "Month-by-month 2026 timeline of open source program deadlines: GSoC organization and contributor applications, Outreachy cohorts, Season of KDE, Hacktoberfest and more.",
    );
    reveal_strlit(
        "A guide for first-time open source contributors: the most beginner-friendly programs, where to find your first issue by language, non-code ways to contribute, and an eight week learning path.",
    );
    reveal_strlit(
        "Tools and guides for open source contributors: beginner issue trackers, Git tutorials, open source education and communities for support.",
    );
    let t0 = full_title_of(site_page_path(0), site_page_title(0));
    let t1 = full_title_of(site_page_path(1), site_page_title(1));
    let t2 = full_title_of(site_page_path(2), site_page_title(2));
    let t3 = full_title_of(site_page_path(3), site_page_title(3));
    assert(is_root(site_page_path(0)));
    assert(!is_root(site_page_path(1))) by {
        assert(site_page_path(1).len() != "/"@.len());
    }
    assert(!is_root(site_page_path(2))) by {
        assert(site_page_path(2).len() != "/"@.len());
    }
    assert(!is_root(site_page_path(3))) by {
        assert(site_page_path(3).len() != "/"@.len());
    }
    assert(SITE_NAME@ == "Open Source Programs"@);
    assert(t0[0] == 'O');
    assert(t1[0] == '2');
    assert(t2[0] == 'S');
    assert(t3[0] == 'R');
    assert(site_page_description(0)[2] == 'c');
    assert(site_page_description(1)[0] == 'M');
    assert(site_page_description(2)[2] == 'g');
    assert(site_page_description(3)[0] == 'T');
    assert forall|i: int, j: int| 0 <= i < j < 4 implies escaped(
        full_title_of(site_page_path(i), site_page_title(i)),
    ) != escaped(full_title_of(site_page_path(j), site_page_title(j))) && escaped(
        site_page_description(i),
    ) != escaped(site_page_description(j)) && escaped(canonical_of(site_page_path(i))) != escaped(
        canonical_of(site_page_path(j)),
    ) by {
        let ti = full_title_of(site_page_path(i), site_page_title(i));
        let tj = full_title_of(site_page_path(j), site_page_title(j));
        let di = site_page_description(i);
        let dj = site_page_description(j);
        let ci = canonical_of(site_page_path(i));
        let cj = canonical_of(site_page_path(j));
        // Titles differ in their first character.
        lemma_differ_at(ti, tj, 0);
        // Descriptions differ in their first or third character.
        if i == 0 && j == 2 {
            lemma_differ_at(di, dj, 2);
        } else {
            lemma_differ_at(di, dj, 0);
        }
        // Canonical URLs differ in length.
        assert(ci.len() != cj.len());
        law_escaped_can_be_undone(ti);
        law_escaped_can_be_undone(tj);
        law_escaped_can_be_undone(di);
        law_escaped_can_be_undone(dj);
        law_escaped_can_be_undone(ci);
        law_escaped_can_be_undone(cj);
    }
}

} // verus!
