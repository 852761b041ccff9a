//! The "Start here" page for first-time contributors.
use vstd::prelude::*;
use vstd::string::*;

use crate::model::{
    BeginnerPick, LabelHint, LanguageGuide, LearningStep, NonCode, Program, ResourceLink, Site,
};
use crate::render::home::all_programs;
use crate::render::shell::{site_page_description, site_page_path, site_page_title, Page};
use crate::render::text::{
    concat_map, esc, esc_code, esc_code_spec, escaped, has_part, lemma_concat_map_has_part,
    lemma_has_part_concat, lemma_has_part_middle, lemma_has_part_self, lemma_has_part_trans,
};
use crate::strings::{eq_ignore_case, owned, same_ignoring_ascii_case};

verus! {

/// URL of the first program at or after position `k` whose name matches
/// `needle` ignoring ASCII case.
pub open spec fn url_by_name_from(ps: Seq<Program>, needle: Seq<char>, k: int) -> Option<Seq<char>>
    decreases ps.len() - k,
{
    if k < 0 || k >= ps.len() {
        None
    } else if same_ignoring_ascii_case(ps[k].name@, needle) {
        Some(ps[k].url@)
    } else {
        url_by_name_from(ps, needle, k + 1)
    }
}

pub open spec fn pick_spec(site: Site, pick: BeginnerPick) -> Seq<char> {
    "<li>\n<div class=\"item-name\">"@ + (match url_by_name_from(
        all_programs(site),
        pick.program@,
        0,
    ) {
        Some(u) => "<a href=\""@ + escaped(u) + "\" rel=\"noopener\">"@ + escaped(pick.program@)
            + "</a>"@,
        None => escaped(pick.program@),
    }) + "</div>\n"@ + "<p class=\"item-desc\">"@ + esc_code_spec(pick.why@) + "</p>\n"@
        + "<p class=\"item-desc\"><strong>Getting started:</strong> "@ + esc_code_spec(
        pick.getting_started@,
    ) + "</p>\n"@ + "</li>\n"@
}

pub open spec fn link_spec(l: ResourceLink) -> Seq<char> {
    "<a href=\""@ + escaped(l.url@) + "\" rel=\"noopener\">"@ + escaped(l.name@) + "</a>"@
}

pub open spec fn label_span_spec(l: String) -> Seq<char> {
    "<span class=\"code-label\">"@ + escaped(l@) + "</span>"@
}

pub open spec fn lang_block_spec(lang: LanguageGuide) -> Seq<char> {
    "<div class=\"lang-block\">\n"@ + "<h3>"@ + escaped(lang.name@) + "</h3>\n"@ + (if lang.repos@.len()
        > 0 {
        "<div class=\"repo-links\">\n"@ + concat_map(
            lang.repos@,
            |l: ResourceLink| link_spec(l),
            lang.repos@.len() as int,
        ) + "\n</div>\n"@
    } else {
        ""@
    }) + (match lang.note {
        Some(n) => "<p class=\"item-desc\">"@ + esc_code_spec(n@) + "</p>\n"@,
        None => ""@,
    }) + (if lang.labels@.len() > 0 {
        "<div class=\"label-list\">\n"@ + concat_map(
            lang.labels@,
            |l: String| label_span_spec(l),
            lang.labels@.len() as int,
        ) + "\n</div>\n"@
    } else {
        ""@
    }) + "</div>\n"@
}

/// Language blocks `0..n`; the second column starts at block `half`.
pub open spec fn langs_upto(langs: Seq<LanguageGuide>, half: int, n: int) -> Seq<char>
    decreases n,
{
    if n <= 0 {
        seq![]
    } else {
        langs_upto(langs, half, n - 1) + (if n - 1 == half {
            "</div>\n<div>\n"@
        } else {
            ""@
        }) + lang_block_spec(langs[n - 1])
    }
}

/// Half the number of languages, rounded up: the first column's share.
pub open spec fn half_up(n: nat) -> int {
    (n as int + 1) / 2
}

pub open spec fn non_code_spec(nc: NonCode) -> Seq<char> {
    "<li>\n"@ + "<div class=\"item-name\">"@ + escaped(nc.kind@) + "</div>\n"@
        + "<p class=\"item-desc\">"@ + esc_code_spec(nc.description@) + "</p>\n"@ + (if nc.links@.len()
        > 0 {
        "<div class=\"repo-links\" style=\"margin-top:7px\">\n"@ + concat_map(
            nc.links@,
            |l: ResourceLink| link_spec(l),
            nc.links@.len() as int,
        ) + "\n</div>\n"@
    } else {
        ""@
    }) + "</li>\n"@
}

pub open spec fn step_spec(s: LearningStep) -> Seq<char> {
    "<li>\n"@ + "<div class=\"step-when\">"@ + escaped(s.weeks@) + "</div>\n"@
        + "<div class=\"step-goal\">"@ + esc_code_spec(s.goal@) + "</div>\n"@ + "</li>\n"@
}

pub open spec fn label_hint_spec(l: LabelHint) -> Seq<char> {
    "<li>\n"@ + "<div class=\"item-name\"><span class=\"code-label\">"@ + escaped(l.label@)
        + "</span></div>\n"@ + "<p class=\"item-desc\">"@ + esc_code_spec(l.meaning@) + "</p>\n"@
        + "</li>\n"@
}

pub open spec fn picks_section_spec(site: Site) -> Seq<char> {
    "<section class=\"section\" style=\"border-top:0\"><div class=\"wrap\">\n"@
        + "<h2>Best programs for beginners</h2>\n"@
        + "<p class=\"section-lede\">Ranked by how little ceremony stands between you and your first contribution.</p>\n"@
        + "<ul class=\"stack\">\n"@ + concat_map(
        site.guide.best_for_beginners@,
        |p: BeginnerPick| pick_spec(site, p),
        site.guide.best_for_beginners@.len() as int,
    ) + "</ul>\n</div></section>\n"@
}

pub open spec fn langs_section_spec(site: Site) -> Seq<char> {
    "<section class=\"section\"><div class=\"wrap\">\n"@ + "<h2>Where to find your first issue</h2>\n"@
        + "<p class=\"section-lede\">Repositories with an active habit of labelling work for newcomers, and the labels each community actually uses.</p>\n"@
        + "<div class=\"cols-2\">\n<div>\n"@ + langs_upto(
        site.guide.languages@,
        half_up(site.guide.languages@.len()),
        site.guide.languages@.len() as int,
    ) + "</div>\n</div>\n</div></section>\n"@
}

pub open spec fn practice_section_spec(site: Site) -> Seq<char> {
    "<section class=\"section\"><div class=\"wrap\">\n"@ + "<div class=\"cols-2\">\n"@
        + "<div>\n<h2>You do not have to write code</h2>\n"@
        + "<p class=\"section-lede\">Every one of these counts as a real contribution.</p>\n"@
        + "<ul class=\"stack\">\n"@ + concat_map(
        site.guide.non_code@,
        |nc: NonCode| non_code_spec(nc),
        site.guide.non_code@.len() as int,
    ) + "</ul>\n</div>\n"@ + "<div>\n<h2>An eight week path</h2>\n"@
        + "<p class=\"section-lede\">A realistic ramp from never having used Git to submitting your first application.</p>\n"@
        + "<ol class=\"steps\">\n"@ + concat_map(
        site.guide.learning_path@,
        |s: LearningStep| step_spec(s),
        site.guide.learning_path@.len() as int,
    ) + "</ol>\n</div>\n"@ + "</div>\n</div></section>\n"@
}

pub open spec fn labels_section_spec(site: Site) -> Seq<char> {
    "<section class=\"section\"><div class=\"wrap\">\n"@ + "<h2>Labels worth searching for</h2>\n"@
        + "<p class=\"section-lede\">Search any of these on GitHub together with a language you know.</p>\n"@
        + "<ul class=\"stack\">\n"@ + concat_map(
        site.guide.labels@,
        |l: LabelHint| label_hint_spec(l),
        site.guide.labels@.len() as int,
    ) + "</ul>\n</div></section>\n"@
}

pub open spec fn start_here_body_spec(site: Site) -> Seq<char> {
    "<div class=\"page-head\"><div class=\"wrap\">\n"@ + "<h1>Start here</h1>\n"@
        + "<p class=\"lede\">New to open source? These programs have the shortest path from zero to a merged pull request, and none of them need you to be an expert first.</p>\n"@
        + "</div></div>\n"@ + picks_section_spec(site) + langs_section_spec(site)
        + practice_section_spec(site) + labels_section_spec(site)
}

fn url_by_name<'a>(site: &'a Site, needle: &str) -> (r: Option<&'a str>)
    ensures
        match r {
            Some(u) => url_by_name_from(all_programs(*site), needle@, 0) == Some(u@),
            None => url_by_name_from(all_programs(*site), needle@, 0) is None,
        },
{
    let ghost all = all_programs(*site);
    let np = site.programs.len();
    let mut k: usize = 0;
    while k < np
        invariant
            np == site.programs.len(),
            all == all_programs(*site),
            k <= np,
            url_by_name_from(all, needle@, 0) == url_by_name_from(all, needle@, k as int),
        decreases np - k,
    {
        let p = &site.programs[k];
        assert(*p == all[k as int]);
        if eq_ignore_case(p.name.as_str(), needle) {
            return Some(p.url.as_str());
        }
        k += 1;
    }
    let nc = site.competitions.len();
    let mut j: usize = 0;
    while j < nc
        invariant
            np == site.programs.len(),
            nc == site.competitions.len(),
            all == all_programs(*site),
            j <= nc,
            url_by_name_from(all, needle@, 0) == url_by_name_from(all, needle@, np + j),
        decreases nc - j,
    {
        let p = &site.competitions[j];
        assert(*p == all[np + j]);
        if eq_ignore_case(p.name.as_str(), needle) {
            return Some(p.url.as_str());
        }
        j += 1;
    }
    None
}

fn pick_item(site: &Site, pick: &BeginnerPick) -> (r: String)
    ensures
        r@ == pick_spec(*site, *pick),
{
    let mut b = owned("<li>\n<div class=\"item-name\">");
    match url_by_name(site, pick.program.as_str()) {
        Some(u) => {
            let mut a = owned("<a href=\"");
            a.append(esc(u).as_str());
            a.append("\" rel=\"noopener\">");
            a.append(esc(pick.program.as_str()).as_str());
            a.append("</a>");
            b.append(a.as_str());
        },
        None => b.append(esc(pick.program.as_str()).as_str()),
    }
    b.append("</div>\n");
    b.append("<p class=\"item-desc\">");
    b.append(esc_code(pick.why.as_str()).as_str());
    b.append("</p>\n");
    b.append("<p class=\"item-desc\"><strong>Getting started:</strong> ");
    b.append(esc_code(pick.getting_started.as_str()).as_str());
    b.append("</p>\n");
    b.append("</li>\n");
    b
}

fn link(l: &ResourceLink) -> (r: String)
    ensures
        r@ == link_spec(*l),
{
    let mut a = owned("<a href=\"");
    a.append(esc(l.url.as_str()).as_str());
    a.append("\" rel=\"noopener\">");
    a.append(esc(l.name.as_str()).as_str());
    a.append("</a>");
    a
}

fn links(ls: &Vec<ResourceLink>) -> (r: String)
    ensures
        r@ == concat_map(ls@, |l: ResourceLink| link_spec(l), ls@.len() as int),
{
    let ghost f = |l: ResourceLink| link_spec(l);
    let mut s = String::new();
    let mut i: usize = 0;
    assert(s@ =~= concat_map(ls@, f, 0));
    while i < ls.len()
        invariant
            i <= ls.len(),
            f == (|l: ResourceLink| link_spec(l)),
            s@ == concat_map(ls@, f, i as int),
        decreases ls.len() - i,
    {
        s.append(link(&ls[i]).as_str());
        i += 1;
    }
    s
}

fn label_spans(ls: &Vec<String>) -> (r: String)
    ensures
        r@ == concat_map(ls@, |l: String| label_span_spec(l), ls@.len() as int),
{
    let ghost f = |l: String| label_span_spec(l);
    let mut s = String::new();
    let mut i: usize = 0;
    assert(s@ =~= concat_map(ls@, f, 0));
    while i < ls.len()
        invariant
            i <= ls.len(),
            f == (|l: String| label_span_spec(l)),
            s@ == concat_map(ls@, f, i as int),
        decreases ls.len() - i,
    {
        s.append("<span class=\"code-label\">");
        s.append(esc(ls[i].as_str()).as_str());
        s.append("</span>");
        i += 1;
    }
    s
}

fn lang_block(lang: &LanguageGuide) -> (r: String)
    ensures
        r@ == lang_block_spec(*lang),
{
    let mut b = owned("<div class=\"lang-block\">\n");
    b.append("<h3>");
    b.append(esc(lang.name.as_str()).as_str());
    b.append("</h3>\n");
    if lang.repos.len() > 0 {
        let mut r = owned("<div class=\"repo-links\">\n");
        r.append(links(&lang.repos).as_str());
        r.append("\n</div>\n");
        b.append(r.as_str());
    } else {
        b.append("");
    }
    match &lang.note {
        Some(n) => {
            let mut t = owned("<p class=\"item-desc\">");
            t.append(esc_code(n.as_str()).as_str());
            t.append("</p>\n");
            b.append(t.as_str());
        },
        None => b.append(""),
    }
    if lang.labels.len() > 0 {
        let mut t = owned("<div class=\"label-list\">\n");
        t.append(label_spans(&lang.labels).as_str());
        t.append("\n</div>\n");
        b.append(t.as_str());
    } else {
        b.append("");
    }
    b.append("</div>\n");
    b
}

fn non_code(nc: &NonCode) -> (r: String)
    ensures
        r@ == non_code_spec(*nc),
{
    let mut b = owned("<li>\n");
    b.append("<div class=\"item-name\">");
    b.append(esc(nc.kind.as_str()).as_str());
    b.append("</div>\n");
    b.append("<p class=\"item-desc\">");
    b.append(esc_code(nc.description.as_str()).as_str());
    b.append("</p>\n");
    if nc.links.len() > 0 {
        let mut t = owned("<div class=\"repo-links\" style=\"margin-top:7px\">\n");
        t.append(links(&nc.links).as_str());
        t.append("\n</div>\n");
        b.append(t.as_str());
    } else {
        b.append("");
    }
    b.append("</li>\n");
    b
}

fn picks_section(site: &Site) -> (r: String)
    ensures
        r@ == picks_section_spec(*site),
{
    let xs = &site.guide.best_for_beginners;
    let ghost f = |p: BeginnerPick| pick_spec(*site, p);
    let mut items = String::new();
    let mut i: usize = 0;
    assert(items@ =~= concat_map(xs@, f, 0));
    while i < xs.len()
        invariant
            xs == &site.guide.best_for_beginners,
            i <= xs.len(),
            f == (|p: BeginnerPick| pick_spec(*site, p)),
            items@ == concat_map(xs@, f, i as int),
        decreases xs.len() - i,
    {
        items.append(pick_item(site, &xs[i]).as_str());
        i += 1;
    }
    let mut b = owned("<section class=\"section\" style=\"border-top:0\"><div class=\"wrap\">\n");
    b.append("<h2>Best programs for beginners</h2>\n");
    b.append(
        "<p class=\"section-lede\">Ranked by how little ceremony stands between you and your first contribution.</p>\n",
    );
    b.append("<ul class=\"stack\">\n");
    b.append(items.as_str());
    b.append("</ul>\n</div></section>\n");
    b
}

fn langs_section(site: &Site) -> (r: String)
    ensures
        r@ == langs_section_spec(*site),
{
    let langs = &site.guide.languages;
    let len = langs.len();
    let half = len / 2 + len % 2;
    assert(half == half_up(len as nat));
    let mut blocks = String::new();
    let mut i: usize = 0;
    assert(blocks@ =~= langs_upto(langs@, half as int, 0));
    while i < len
        invariant
            langs == &site.guide.languages,
            len == langs.len(),
            i <= len,
            blocks@ == langs_upto(langs@, half as int, i as int),
        decreases len - i,
    {
        if i == half {
            blocks.append("</div>\n<div>\n");
        } else {
            blocks.append("");
        }
        blocks.append(lang_block(&langs[i]).as_str());
        i += 1;
    }
    let mut b = owned("<section class=\"section\"><div class=\"wrap\">\n");
    b.append("<h2>Where to find your first issue</h2>\n");
    b.append(
        "<p class=\"section-lede\">Repositories with an active habit of labelling work for newcomers, and the labels each community actually uses.</p>\n",
    );
    b.append("<div class=\"cols-2\">\n<div>\n");
    b.append(blocks.as_str());
    b.append("</div>\n</div>\n</div></section>\n");
    b
}

fn practice_section(site: &Site) -> (r: String)
    ensures
        r@ == practice_section_spec(*site),
{
    let ncs = &site.guide.non_code;
    let ghost f = |nc: NonCode| non_code_spec(nc);
    let mut items = String::new();
    let mut i: usize = 0;
    assert(items@ =~= concat_map(ncs@, f, 0));
    while i < ncs.len()
        invariant
            ncs == &site.guide.non_code,
            i <= ncs.len(),
            f == (|nc: NonCode| non_code_spec(nc)),
            items@ == concat_map(ncs@, f, i as int),
        decreases ncs.len() - i,
    {
        items.append(non_code(&ncs[i]).as_str());
        i += 1;
    }
    let steps = &site.guide.learning_path;
    let ghost g = |s: LearningStep| step_spec(s);
    let mut path = String::new();
    let mut j: usize = 0;
    assert(path@ =~= concat_map(steps@, g, 0));
    while j < steps.len()
        invariant
            steps == &site.guide.learning_path,
            j <= steps.len(),
            g == (|s: LearningStep| step_spec(s)),
            path@ == concat_map(steps@, g, j as int),
        decreases steps.len() - j,
    {
        let st = &steps[j];
        path.append("<li>\n");
        path.append("<div class=\"step-when\">");
        path.append(esc(st.weeks.as_str()).as_str());
        path.append("</div>\n");
        path.append("<div class=\"step-goal\">");
        path.append(esc_code(st.goal.as_str()).as_str());
        path.append("</div>\n");
        path.append("</li>\n");
        j += 1;
    }
    let mut b = owned("<section class=\"section\"><div class=\"wrap\">\n");
    b.append("<div class=\"cols-2\">\n");
    b.append("<div>\n<h2>You do not have to write code</h2>\n");
    b.append("<p class=\"section-lede\">Every one of these counts as a real contribution.</p>\n");
    b.append("<ul class=\"stack\">\n");
    b.append(items.as_str());
    b.append("</ul>\n</div>\n");
    b.append("<div>\n<h2>An eight week path</h2>\n");
    b.append(
        "<p class=\"section-lede\">A realistic ramp from never having used Git to submitting your first application.</p>\n",
    );
    b.append("<ol class=\"steps\">\n");
    b.append(path.as_str());
    b.append("</ol>\n</div>\n");
    b.append("</div>\n</div></section>\n");
    b
}

fn labels_section(site: &Site) -> (r: String)
    ensures
        r@ == labels_section_spec(*site),
{
    let ls = &site.guide.labels;
    let ghost f = |l: LabelHint| label_hint_spec(l);
    let mut items = String::new();
    let mut i: usize = 0;
    assert(items@ =~= concat_map(ls@, f, 0));
    while i < ls.len()
        invariant
            ls == &site.guide.labels,
            i <= ls.len(),
            f == (|l: LabelHint| label_hint_spec(l)),
            items@ == concat_map(ls@, f, i as int),
        decreases ls.len() - i,
    {
        let l = &ls[i];
        items.append("<li>\n");
        items.append("<div class=\"item-name\"><span class=\"code-label\">");
        items.append(esc(l.label.as_str()).as_str());
        items.append("</span></div>\n");
        items.append("<p class=\"item-desc\">");
        items.append(esc_code(l.meaning.as_str()).as_str());
        items.append("</p>\n");
        items.append("</li>\n");
        i += 1;
    }
    let mut b = owned("<section class=\"section\"><div class=\"wrap\">\n");
    b.append("<h2>Labels worth searching for</h2>\n");
    b.append(
        "<p class=\"section-lede\">Search any of these on GitHub together with a language you know.</p>\n",
    );
    b.append("<ul class=\"stack\">\n");
    b.append(items.as_str());
    b.append("</ul>\n</div></section>\n");
    b
}

/// The guide page: beginner picks (linked to their program when one has
/// that name), languages in two columns, non-code contributions beside the
/// learning path, and labels worth searching for.
pub fn start_here(site: &Site) -> (page: Page<'_>)
    ensures
        page.title@ == site_page_title(2),
        page.description@ == site_page_description(2),
        page.path@ == site_page_path(2),
        page.nav@ == "start"@,
        page.body@ == start_here_body_spec(*site),
        page.json_ld is None,
{
    let mut b = owned("<div class=\"page-head\"><div class=\"wrap\">\n");
    b.append("<h1>Start here</h1>\n");
    b.append(
        "<p class=\"lede\">New to open source? These programs have the shortest path from zero to a merged pull request, and none of them need you to be an expert first.</p>\n",
    );
    b.append("</div></div>\n");
    b.append(picks_section(site).as_str());
    b.append(langs_section(site).as_str());
    b.append(practice_section(site).as_str());
    b.append(labels_section(site).as_str());
    Page {
        title: "Start here",
        description: "A guide for first-time open source contributors: the most beginner-friendly programs, where to find your first issue by language, non-code ways to contribute, and an eight week learning path.",
        path: "/start-here/",
        nav: "start",
        body: b,
        json_ld: None,
    }
}

// ---------------------------------------------------------------------------
// What the page shows.
// ---------------------------------------------------------------------------

/// The paragraph of prose under a guide entry: its text with backtick spans
/// turned into code labels and the rest escaped.
pub open spec fn prose_para(t: Seq<char>) -> Seq<char> {
    "<p class=\"item-desc\">"@ + esc_code_spec(t) + "</p>\n"@
}

proof fn lemma_sections_on_page(site: Site)
    ensures
        has_part(start_here_body_spec(site), picks_section_spec(site)),
        has_part(start_here_body_spec(site), langs_section_spec(site)),
        has_part(start_here_body_spec(site), practice_section_spec(site)),
        has_part(start_here_body_spec(site), labels_section_spec(site)),
{
    let h = "<div class=\"page-head\"><div class=\"wrap\">\n"@ + "<h1>Start here</h1>\n"@
        + "<p class=\"lede\">New to open source? These programs have the shortest path from zero to a merged pull request, and none of them need you to be an expert first.</p>\n"@
        + "</div></div>\n"@;
    let a = picks_section_spec(site);
    let b = langs_section_spec(site);
    let c = practice_section_spec(site);
    let d = labels_section_spec(site);
    let body = start_here_body_spec(site);
    assert(body =~= h + a + (b + c + d));
    lemma_has_part_middle(h, a, b + c + d);
    assert(body =~= (h + a) + b + (c + d));
    lemma_has_part_middle(h + a, b, c + d);
    assert(body =~= (h + a + b) + c + d);
    lemma_has_part_middle(h + a + b, c, d);
    lemma_has_part_self(d);
    lemma_has_part_concat(h + a + b + c, d, d);
}

proof fn lemma_pick_prose(site: Site, pick: BeginnerPick)
    ensures
        has_part(
            pick_spec(site, pick),
            prose_para(pick.why@) + "<p class=\"item-desc\"><strong>Getting started:</strong> "@
                + esc_code_spec(pick.getting_started@) + "</p>\n"@,
        ),
{
    let name = match url_by_name_from(all_programs(site), pick.program@, 0) {
        Some(u) => "<a href=\""@ + escaped(u) + "\" rel=\"noopener\">"@ + escaped(pick.program@)
            + "</a>"@,
        None => escaped(pick.program@),
    };
    let head = "<li>\n<div class=\"item-name\">"@ + name + "</div>\n"@;
    let mid = prose_para(pick.why@) + "<p class=\"item-desc\"><strong>Getting started:</strong> "@
        + esc_code_spec(pick.getting_started@) + "</p>\n"@;
    assert(pick_spec(site, pick) =~= head + mid + "</li>\n"@);
    lemma_has_part_middle(head, mid, "</li>\n"@);
}

/// Law: every beginner pick shows its "why" and its getting-started text as
/// prose: backtick spans become code labels and everything else is escaped.
pub proof fn law_picks_show_their_prose(site: Site, j: int)
    requires
        0 <= j < site.guide.best_for_beginners@.len(),
    ensures
        ({
            let pick = site.guide.best_for_beginners@[j];
            has_part(
                start_here_body_spec(site),
                prose_para(pick.why@)
                    + "<p class=\"item-desc\"><strong>Getting started:</strong> "@
                    + esc_code_spec(pick.getting_started@) + "</p>\n"@,
            )
        }),
{
    let picks = site.guide.best_for_beginners@;
    let pick = picks[j];
    let f = |p: BeginnerPick| pick_spec(site, p);
    let items = concat_map(picks, f, picks.len() as int);
    lemma_concat_map_has_part(picks, f, picks.len() as int, j);
    let head = "<section class=\"section\" style=\"border-top:0\"><div class=\"wrap\">\n"@
        + "<h2>Best programs for beginners</h2>\n"@
        + "<p class=\"section-lede\">Ranked by how little ceremony stands between you and your first contribution.</p>\n"@
        + "<ul class=\"stack\">\n"@;
    assert(picks_section_spec(site) =~= head + items + "</ul>\n</div></section>\n"@);
    lemma_has_part_middle(head, items, "</ul>\n</div></section>\n"@);
    lemma_pick_prose(site, pick);
    lemma_sections_on_page(site);
    let body = start_here_body_spec(site);
    lemma_has_part_trans(body, picks_section_spec(site), items);
    lemma_has_part_trans(body, items, pick_spec(site, pick));
    lemma_has_part_trans(
        body,
        pick_spec(site, pick),
        prose_para(pick.why@) + "<p class=\"item-desc\"><strong>Getting started:</strong> "@
            + esc_code_spec(pick.getting_started@) + "</p>\n"@,
    );
}

proof fn lemma_langs_upto_has_block(langs: Seq<LanguageGuide>, half: int, n: int, i: int)
    requires
        0 <= i < n,
    ensures
        has_part(langs_upto(langs, half, n), lang_block_spec(langs[i])),
    decreases n,
{
    let sep = if n - 1 == half {
        "</div>\n<div>\n"@
    } else {
        ""@
    };
    assert(langs_upto(langs, half, n) == langs_upto(langs, half, n - 1) + sep + lang_block_spec(
        langs[n - 1],
    ));
    if i == n - 1 {
        lemma_has_part_self(lang_block_spec(langs[i]));
    } else {
        lemma_langs_upto_has_block(langs, half, n - 1, i);
        lemma_has_part_concat(langs_upto(langs, half, n - 1), sep, lang_block_spec(langs[i]));
    }
    lemma_has_part_concat(langs_upto(langs, half, n - 1) + sep, lang_block_spec(langs[n - 1]), lang_block_spec(langs[i]));
}

proof fn lemma_lang_note(lang: LanguageGuide)
    ensures
        lang.note matches Some(n) ==> has_part(lang_block_spec(lang), prose_para(n@)),
{
    if let Some(n) = lang.note {
        let repos = if lang.repos@.len() > 0 {
            "<div class=\"repo-links\">\n"@ + concat_map(
                lang.repos@,
                |l: ResourceLink| link_spec(l),
                lang.repos@.len() as int,
            ) + "\n</div>\n"@
        } else {
            ""@
        };
        let labels = if lang.labels@.len() > 0 {
            "<div class=\"label-list\">\n"@ + concat_map(
                lang.labels@,
                |l: String| label_span_spec(l),
                lang.labels@.len() as int,
            ) + "\n</div>\n"@
        } else {
            ""@
        };
        let head = "<div class=\"lang-block\">\n"@ + "<h3>"@ + escaped(lang.name@) + "</h3>\n"@ + repos;
        assert(lang_block_spec(lang) =~= head + prose_para(n@) + (labels + "</div>\n"@));
        lemma_has_part_middle(head, prose_para(n@), labels + "</div>\n"@);
    }
}

/// Law: the note of every language block is shown as prose.
pub proof fn law_language_notes_shown(site: Site, i: int)
    requires
        0 <= i < site.guide.languages@.len(),
    ensures
        site.guide.languages@[i].note matches Some(n) ==> has_part(
            start_here_body_spec(site),
            prose_para(n@),
        ),
{
    let langs = site.guide.languages@;
    let lang = langs[i];
    let half = half_up(langs.len());
    let blocks = langs_upto(langs, half, langs.len() as int);
    lemma_langs_upto_has_block(langs, half, langs.len() as int, i);
    let head = "<section class=\"section\"><div class=\"wrap\">\n"@ + "<h2>Where to find your first issue</h2>\n"@
        + "<p class=\"section-lede\">Repositories with an active habit of labelling work for newcomers, and the labels each community actually uses.</p>\n"@
        + "<div class=\"cols-2\">\n<div>\n"@;
    assert(langs_section_spec(site) =~= head + blocks + "</div>\n</div>\n</div></section>\n"@);
    lemma_has_part_middle(head, blocks, "</div>\n</div>\n</div></section>\n"@);
    lemma_sections_on_page(site);
    let body = start_here_body_spec(site);
    lemma_has_part_trans(body, langs_section_spec(site), blocks);
    lemma_has_part_trans(body, blocks, lang_block_spec(lang));
    lemma_lang_note(lang);
    if let Some(n) = lang.note {
        lemma_has_part_trans(body, lang_block_spec(lang), prose_para(n@));
    }
}

proof fn lemma_practice_parts(site: Site)
    ensures
        has_part(
            practice_section_spec(site),
            concat_map(site.guide.non_code@, |nc: NonCode| non_code_spec(nc), site.guide.non_code@.len() as int),
        ),
        has_part(
            practice_section_spec(site),
            concat_map(
                site.guide.learning_path@,
                |s: LearningStep| step_spec(s),
                site.guide.learning_path@.len() as int,
            ),
        ),
{
    let ncs = concat_map(site.guide.non_code@, |nc: NonCode| non_code_spec(nc), site.guide.non_code@.len() as int);
    let steps = concat_map(
        site.guide.learning_path@,
        |s: LearningStep| step_spec(s),
        site.guide.learning_path@.len() as int,
    );
    let a = "<section class=\"section\"><div class=\"wrap\">\n"@ + "<div class=\"cols-2\">\n"@
        + "<div>\n<h2>You do not have to write code</h2>\n"@
        + "<p class=\"section-lede\">Every one of these counts as a real contribution.</p>\n"@
        + "<ul class=\"stack\">\n"@;
    let b = "</ul>\n</div>\n"@ + "<div>\n<h2>An eight week path</h2>\n"@
        + "<p class=\"section-lede\">A realistic ramp from never having used Git to submitting your first application.</p>\n"@
        + "<ol class=\"steps\">\n"@;
    let c = "</ol>\n</div>\n"@ + "</div>\n</div></section>\n"@;
    assert(practice_section_spec(site) =~= a + ncs + (b + steps + c));
    lemma_has_part_middle(a, ncs, b + steps + c);
    assert(practice_section_spec(site) =~= (a + ncs + b) + steps + c);
    lemma_has_part_middle(a + ncs + b, steps, c);
}

proof fn lemma_non_code_desc(nc: NonCode)
    ensures
        has_part(non_code_spec(nc), prose_para(nc.description@)),
{
    let links = if nc.links@.len() > 0 {
        "<div class=\"repo-links\" style=\"margin-top:7px\">\n"@ + concat_map(
            nc.links@,
            |l: ResourceLink| link_spec(l),
            nc.links@.len() as int,
        ) + "\n</div>\n"@
    } else {
        ""@
    };
    let nhead = "<li>\n"@ + "<div class=\"item-name\">"@ + escaped(nc.kind@) + "</div>\n"@;
    assert(non_code_spec(nc) =~= nhead + prose_para(nc.description@) + (links + "</li>\n"@));
    lemma_has_part_middle(nhead, prose_para(nc.description@), links + "</li>\n"@);
}

proof fn lemma_step_goal(st: LearningStep)
    ensures
        has_part(step_spec(st), "<div class=\"step-goal\">"@ + esc_code_spec(st.goal@) + "</div>\n"@),
{
    let goal = "<div class=\"step-goal\">"@ + esc_code_spec(st.goal@) + "</div>\n"@;
    let shead = "<li>\n"@ + "<div class=\"step-when\">"@ + escaped(st.weeks@) + "</div>\n"@;
    assert(step_spec(st) =~= shead + goal + "</li>\n"@);
    lemma_has_part_middle(shead, goal, "</li>\n"@);
}

proof fn lemma_label_meaning(l: LabelHint)
    ensures
        has_part(label_hint_spec(l), prose_para(l.meaning@)),
{
    let lhead = "<li>\n"@ + "<div class=\"item-name\"><span class=\"code-label\">"@ + escaped(l.label@)
        + "</span></div>\n"@;
    assert(label_hint_spec(l) =~= lhead + prose_para(l.meaning@) + "</li>\n"@);
    lemma_has_part_middle(lhead, prose_para(l.meaning@), "</li>\n"@);
}

proof fn lemma_label_items(site: Site)
    ensures
        has_part(
            start_here_body_spec(site),
            concat_map(site.guide.labels@, |x: LabelHint| label_hint_spec(x), site.guide.labels@.len() as int),
        ),
{
    let items = concat_map(site.guide.labels@, |x: LabelHint| label_hint_spec(x), site.guide.labels@.len() as int);
    let head = "<section class=\"section\"><div class=\"wrap\">\n"@ + "<h2>Labels worth searching for</h2>\n"@
        + "<p class=\"section-lede\">Search any of these on GitHub together with a language you know.</p>\n"@
        + "<ul class=\"stack\">\n"@;
    assert(labels_section_spec(site) =~= head + items + "</ul>\n</div></section>\n"@);
    lemma_has_part_middle(head, items, "</ul>\n</div></section>\n"@);
    lemma_sections_on_page(site);
    lemma_has_part_trans(start_here_body_spec(site), labels_section_spec(site), items);
}

/// Law: every non-code contribution shows its description as prose, and
/// every step of the learning path shows its goal as prose.
pub proof fn law_practice_prose_shown(site: Site, i: int, k: int)
    requires
        0 <= i < site.guide.non_code@.len(),
        0 <= k < site.guide.learning_path@.len(),
    ensures
        has_part(start_here_body_spec(site), prose_para(site.guide.non_code@[i].description@)),
        has_part(
            start_here_body_spec(site),
            "<div class=\"step-goal\">"@ + esc_code_spec(site.guide.learning_path@[k].goal@)
                + "</div>\n"@,
        ),
{
    let body = start_here_body_spec(site);
    let nc = site.guide.non_code@[i];
    let st = site.guide.learning_path@[k];
    let fn_ = |x: NonCode| non_code_spec(x);
    let fs = |x: LearningStep| step_spec(x);
    let ncs = concat_map(site.guide.non_code@, fn_, site.guide.non_code@.len() as int);
    let steps = concat_map(site.guide.learning_path@, fs, site.guide.learning_path@.len() as int);
    lemma_sections_on_page(site);
    lemma_practice_parts(site);
    lemma_concat_map_has_part(site.guide.non_code@, fn_, site.guide.non_code@.len() as int, i);
    lemma_concat_map_has_part(site.guide.learning_path@, fs, site.guide.learning_path@.len() as int, k);
    lemma_has_part_trans(body, practice_section_spec(site), ncs);
    lemma_has_part_trans(body, ncs, non_code_spec(nc));
    lemma_has_part_trans(body, practice_section_spec(site), steps);
    lemma_has_part_trans(body, steps, step_spec(st));
    lemma_non_code_desc(nc);
    lemma_has_part_trans(body, non_code_spec(nc), prose_para(nc.description@));
    lemma_step_goal(st);
    lemma_has_part_trans(body, step_spec(st), "<div class=\"step-goal\">"@ + esc_code_spec(st.goal@) + "</div>\n"@);
}

/// Law: every label hint shows its meaning as prose.
pub proof fn law_label_meanings_shown(site: Site, i: int)
    requires
        0 <= i < site.guide.labels@.len(),
    ensures
        has_part(start_here_body_spec(site), prose_para(site.guide.labels@[i].meaning@)),
{
    let body = start_here_body_spec(site);
    let l = site.guide.labels@[i];
    let f = |x: LabelHint| label_hint_spec(x);
    let items = concat_map(site.guide.labels@, f, site.guide.labels@.len() as int);
    lemma_concat_map_has_part(site.guide.labels@, f, site.guide.labels@.len() as int, i);
    lemma_label_items(site);
    lemma_has_part_trans(body, items, label_hint_spec(l));
    lemma_label_meaning(l);
    lemma_has_part_trans(body, label_hint_spec(l), prose_para(l.meaning@));
}

} // verus!
