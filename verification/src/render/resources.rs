//! The resources page: link collections and how to keep the list accurate.
use vstd::prelude::*;
use vstd::string::*;

use crate::model::{ResourceLink, ResourceSection, Site};
use crate::render::icon;
use crate::render::shell::{site_page_description, site_page_path, site_page_title, Page, REPO_URL};
use crate::render::text::{
    concat_map, esc, escaped, has_part, lemma_concat_map_has_part, lemma_has_part_middle,
    lemma_has_part_trans,
};
use crate::strings::owned;

verus! {

pub open spec fn resource_item_spec(it: ResourceLink) -> Seq<char> {
    "<li>\n"@ + "<div class=\"item-name\"><a href=\""@ + escaped(it.url@) + "\" rel=\"noopener\">"@
        + escaped(it.name@) + icon::EXTERNAL@ + "</a></div>\n"@ + (match it.description {
        Some(d) => "<p class=\"item-desc\">"@ + escaped(d@) + "</p>\n"@,
        None => ""@,
    }) + "</li>\n"@
}

pub open spec fn resource_section_spec(sec: ResourceSection) -> Seq<char> {
    "<div id=\""@ + escaped(sec.slug@) + "\">\n"@
        + "<h2 style=\"font-size:18px;margin-bottom:14px\">"@ + escaped(sec.section@) + "</h2>\n"@
        + "<ul class=\"stack\">\n"@ + concat_map(
        sec.items@,
        |it: ResourceLink| resource_item_spec(it),
        sec.items@.len() as int,
    ) + "</ul>\n</div>\n"@
}

pub open spec fn contrib_item_spec(name: Seq<char>, desc: Seq<char>, url: Seq<char>) -> Seq<char> {
    "<li>\n"@ + "<div class=\"item-name\"><a href=\""@ + escaped(url) + "\" rel=\"noopener\">"@
        + escaped(name) + "</a></div>\n"@ + "<p class=\"item-desc\">"@ + escaped(desc) + "</p>\n"@
        + "</li>\n"@
}

pub open spec fn contributing_spec() -> Seq<char> {
    "<section class=\"section\"><div class=\"wrap\">\n"@ + "<h2>Keeping this list accurate</h2>\n"@
        + "<p class=\"section-lede\">Program dates, eligibility and stipends change every cycle. If you spot something stale, a pull request takes two minutes.</p>\n"@
        + "<div class=\"disclaimer\">\n"@
        + "<strong>Verify before you apply.</strong> Everything here is community-maintained and can fall out of date between cycles. Always confirm dates, stipend amounts and eligibility on the program's official website before submitting an application.\n"@
        + "</div>\n"@ + "<ul class=\"stack\">\n"@ + contrib_item_spec(
        "Add or update a program"@,
        "Edit data/programs.yml and open a pull request. Include an official link that confirms the dates."@,
        REPO_URL@ + "/blob/main/data/programs.yml"@,
    ) + contrib_item_spec(
        "Report an outdated entry"@,
        "Open an issue with the program name and what changed."@,
        REPO_URL@ + "/issues/new"@,
    ) + "</ul>\n</div></section>\n"@
}

pub open spec fn resources_body_spec(site: Site) -> Seq<char> {
    "<div class=\"page-head\"><div class=\"wrap\">\n"@ + "<h1>Resources</h1>\n"@
        + "<p class=\"lede\">Issue trackers, Git tutorials and communities that stay useful long after your first contribution.</p>\n"@
        + "</div></div>\n"@ + "<section class=\"section\" style=\"border-top:0\"><div class=\"wrap\">\n"@
        + "<div class=\"cols-flow\">\n"@ + concat_map(
        site.resources@,
        |sec: ResourceSection| resource_section_spec(sec),
        site.resources@.len() as int,
    ) + "</div>\n</div></section>\n"@ + contributing_spec()
}

fn resource_item(it: &ResourceLink) -> (r: String)
    ensures
        r@ == resource_item_spec(*it),
{
    let mut b = owned("<li>\n");
    b.append("<div class=\"item-name\"><a href=\"");
    b.append(esc(it.url.as_str()).as_str());
    b.append("\" rel=\"noopener\">");
    b.append(esc(it.name.as_str()).as_str());
    b.append(icon::EXTERNAL);
    b.append("</a></div>\n");
    match &it.description {
        Some(d) => {
            let mut t = owned("<p class=\"item-desc\">");
            t.append(esc(d.as_str()).as_str());
            t.append("</p>\n");
            b.append(t.as_str());
        },
        None => b.append(""),
    }
    b.append("</li>\n");
    b
}

fn resource_section(sec: &ResourceSection) -> (r: String)
    ensures
        r@ == resource_section_spec(*sec),
{
    let ghost f = |it: ResourceLink| resource_item_spec(it);
    let mut items = String::new();
    let mut i: usize = 0;
    assert(items@ =~= concat_map(sec.items@, f, 0));
    while i < sec.items.len()
        invariant
            i <= sec.items.len(),
            f == (|it: ResourceLink| resource_item_spec(it)),
            items@ == concat_map(sec.items@, f, i as int),
        decreases sec.items.len() - i,
    {
        items.append(resource_item(&sec.items[i]).as_str());
        i += 1;
    }
    let mut b = owned("<div id=\"");
    b.append(esc(sec.slug.as_str()).as_str());
    b.append("\">\n");
    b.append("<h2 style=\"font-size:18px;margin-bottom:14px\">");
    b.append(esc(sec.section.as_str()).as_str());
    b.append("</h2>\n");
    b.append("<ul class=\"stack\">\n");
    b.append(items.as_str());
    b.append("</ul>\n</div>\n");
    b
}

fn contrib_item(name: &str, desc: &str, url: &str) -> (r: String)
    ensures
        r@ == contrib_item_spec(name@, desc@, url@),
{
    let mut b = owned("<li>\n");
    b.append("<div class=\"item-name\"><a href=\"");
    b.append(esc(url).as_str());
    b.append("\" rel=\"noopener\">");
    b.append(esc(name).as_str());
    b.append("</a></div>\n");
    b.append("<p class=\"item-desc\">");
    b.append(esc(desc).as_str());
    b.append("</p>\n");
    b.append("</li>\n");
    b
}

fn contributing() -> (r: String)
    ensures
        r@ == contributing_spec(),
{
    let mut add_url = owned(REPO_URL);
    add_url.append("/blob/main/data/programs.yml");
    let mut issue_url = owned(REPO_URL);
    issue_url.append("/issues/new");
    let mut b = owned("<section class=\"section\"><div class=\"wrap\">\n");
    b.append("<h2>Keeping this list accurate</h2>\n");
    b.append(
        "<p class=\"section-lede\">Program dates, eligibility and stipends change every cycle. If you spot something stale, a pull request takes two minutes.</p>\n",
    );
    b.append("<div class=\"disclaimer\">\n");
    b.append(
        "<strong>Verify before you apply.</strong> Everything here is community-maintained and can fall out of date between cycles. Always confirm dates, stipend amounts and eligibility on the program's official website before submitting an application.\n",
    );
    b.append("</div>\n");
    b.append("<ul class=\"stack\">\n");
    b.append(
        contrib_item(
            "Add or update a program",
            "Edit data/programs.yml and open a pull request. Include an official link that confirms the dates.",
            add_url.as_str(),
        ).as_str(),
    );
    b.append(
        contrib_item(
            "Report an outdated entry",
            "Open an issue with the program name and what changed.",
            issue_url.as_str(),
        ).as_str(),
    );
    b.append("</ul>\n</div></section>\n");
    b
}

/// The resources page: every section with its links, then how to report
/// or fix an entry.
pub fn resources(site: &Site) -> (page: Page<'_>)
    ensures
        page.title@ == site_page_title(3),
        page.description@ == site_page_description(3),
        page.path@ == site_page_path(3),
        page.nav@ == "resources"@,
        page.body@ == resources_body_spec(*site),
        page.json_ld is None,
{
    let secs = &site.resources;
    let ghost f = |sec: ResourceSection| resource_section_spec(sec);
    let mut sections = String::new();
    let mut i: usize = 0;
    assert(sections@ =~= concat_map(secs@, f, 0));
    while i < secs.len()
        invariant
            secs == &site.resources,
            i <= secs.len(),
            f == (|sec: ResourceSection| resource_section_spec(sec)),
            sections@ == concat_map(secs@, f, i as int),
        decreases secs.len() - i,
    {
        sections.append(resource_section(&secs[i]).as_str());
        i += 1;
    }
    let mut b = owned("<div class=\"page-head\"><div class=\"wrap\">\n");
    b.append("<h1>Resources</h1>\n");
    b.append(
        "<p class=\"lede\">Issue trackers, Git tutorials and communities that stay useful long after your first contribution.</p>\n",
    );
    b.append("</div></div>\n");
    b.append("<section class=\"section\" style=\"border-top:0\"><div class=\"wrap\">\n");
    b.append("<div class=\"cols-flow\">\n");
    b.append(sections.as_str());
    b.append("</div>\n</div></section>\n");
    b.append(contributing().as_str());
    Page {
        title: "Resources",
        description: "Tools and guides for open source contributors: beginner issue trackers, Git tutorials, open source education and communities for support.",
        path: "/resources/",
        nav: "resources",
        body: b,
        json_ld: None,
    }
}

/// Law: every link of every section is on the resources page. Its link
/// text is the item's escaped name followed by the external-link icon, its
/// target the escaped URL; a description, where there is one, follows it
/// escaped. The section's heading is its escaped title.
pub proof fn law_resource_items_shown(site: Site, s: int, k: int)
    requires
        0 <= s < site.resources@.len(),
        0 <= k < site.resources@[s].items@.len(),
    ensures
        ({
            let sec = site.resources@[s];
            let it = sec.items@[k];
            let body = resources_body_spec(site);
            &&& has_part(
                body,
                "<div class=\"item-name\"><a href=\""@ + escaped(it.url@) + "\" rel=\"noopener\">"@
                    + escaped(it.name@) + icon::EXTERNAL@ + "</a></div>\n"@,
            )
            &&& it.description matches Some(d) ==> has_part(
                body,
                "<p class=\"item-desc\">"@ + escaped(d@) + "</p>\n"@,
            )
            &&& has_part(
                body,
                "<h2 style=\"font-size:18px;margin-bottom:14px\">"@ + escaped(sec.section@)
                    + "</h2>\n"@,
            )
        }),
{
    let sec = site.resources@[s];
    let it = sec.items@[k];
    let body = resources_body_spec(site);
    lemma_section_on_page(site, s);
    lemma_item_in_section(sec, k);
    lemma_link_in_item(it);
    let sect = resource_section_spec(sec);
    let item = resource_item_spec(it);
    let h2 = "<h2 style=\"font-size:18px;margin-bottom:14px\">"@ + escaped(sec.section@) + "</h2>\n"@;
    let link = "<div class=\"item-name\"><a href=\""@ + escaped(it.url@) + "\" rel=\"noopener\">"@
        + escaped(it.name@) + icon::EXTERNAL@ + "</a></div>\n"@;
    lemma_has_part_trans(body, sect, h2);
    lemma_has_part_trans(body, sect, item);
    lemma_has_part_trans(body, item, link);
    if let Some(d) = it.description {
        lemma_has_part_trans(body, item, "<p class=\"item-desc\">"@ + escaped(d@) + "</p>\n"@);
    }
}

proof fn lemma_section_on_page(site: Site, s: int)
    requires
        0 <= s < site.resources@.len(),
    ensures
        has_part(resources_body_spec(site), resource_section_spec(site.resources@[s])),
{
    let fs = |x: ResourceSection| resource_section_spec(x);
    let all = concat_map(site.resources@, fs, site.resources@.len() as int);
    lemma_concat_map_has_part(site.resources@, fs, site.resources@.len() as int, s);
    let head = "<div class=\"page-head\"><div class=\"wrap\">\n"@ + "<h1>Resources</h1>\n"@
        + "<p class=\"lede\">Issue trackers, Git tutorials and communities that stay useful long after your first contribution.</p>\n"@
        + "</div></div>\n"@ + "<section class=\"section\" style=\"border-top:0\"><div class=\"wrap\">\n"@
        + "<div class=\"cols-flow\">\n"@;
    let tail = "</div>\n</div></section>\n"@ + contributing_spec();
    assert(resources_body_spec(site) =~= head + all + tail);
    lemma_has_part_middle(head, all, tail);
    lemma_has_part_trans(resources_body_spec(site), all, resource_section_spec(site.resources@[s]));
}

proof fn lemma_item_in_section(sec: ResourceSection, k: int)
    requires
        0 <= k < sec.items@.len(),
    ensures
        has_part(resource_section_spec(sec), resource_item_spec(sec.items@[k])),
        has_part(
            resource_section_spec(sec),
            "<h2 style=\"font-size:18px;margin-bottom:14px\">"@ + escaped(sec.section@) + "</h2>\n"@,
        ),
{
    let fi = |x: ResourceLink| resource_item_spec(x);
    let sect = resource_section_spec(sec);
    let items = concat_map(sec.items@, fi, sec.items@.len() as int);
    lemma_concat_map_has_part(sec.items@, fi, sec.items@.len() as int, k);
    let shead = "<div id=\""@ + escaped(sec.slug@) + "\">\n"@;
    let h2 = "<h2 style=\"font-size:18px;margin-bottom:14px\">"@ + escaped(sec.section@) + "</h2>\n"@;
    let ul = "<ul class=\"stack\">\n"@;
    let stail = "</ul>\n</div>\n"@;
    assert(sect =~= shead + h2 + (ul + items + stail));
    lemma_has_part_middle(shead, h2, ul + items + stail);
    assert(sect =~= (shead + h2 + ul) + items + stail);
    lemma_has_part_middle(shead + h2 + ul, items, stail);
    lemma_has_part_trans(sect, items, resource_item_spec(sec.items@[k]));
}

proof fn lemma_link_in_item(it: ResourceLink)
    ensures
        has_part(
            resource_item_spec(it),
            "<div class=\"item-name\"><a href=\""@ + escaped(it.url@) + "\" rel=\"noopener\">"@
                + escaped(it.name@) + icon::EXTERNAL@ + "</a></div>\n"@,
        ),
        it.description matches Some(d) ==> has_part(
            resource_item_spec(it),
            "<p class=\"item-desc\">"@ + escaped(d@) + "</p>\n"@,
        ),
{
    let item = resource_item_spec(it);
    let link = "<div class=\"item-name\"><a href=\""@ + escaped(it.url@) + "\" rel=\"noopener\">"@
        + escaped(it.name@) + icon::EXTERNAL@ + "</a></div>\n"@;
    let desc = match it.description {
        Some(d) => "<p class=\"item-desc\">"@ + escaped(d@) + "</p>\n"@,
        None => ""@,
    };
    assert(item =~= "<li>\n"@ + link + (desc + "</li>\n"@));
    lemma_has_part_middle("<li>\n"@, link, desc + "</li>\n"@);
    assert(item =~= ("<li>\n"@ + link) + desc + "</li>\n"@);
    lemma_has_part_middle("<li>\n"@ + link, desc, "</li>\n"@);
}

} // verus!
