//! The month-by-month timeline page.
use vstd::prelude::*;
use vstd::string::*;

use crate::model::{Program, Site, TimelineEvent};
use crate::render::home::all_programs;
use crate::render::shell::{site_page_description, site_page_path, site_page_title, Page};
use crate::render::text::{
    esc, escaped, has_part, lemma_has_part_concat, lemma_has_part_middle, lemma_has_part_self,
    lemma_has_part_trans, slug_spec, slugify,
};
use crate::strings::{decimal, eq_ignore_case, owned, push_decimal, same_ignoring_ascii_case};

verus! {

/// Whether program `p` answers to `needle`, by name or short name, ignoring
/// ASCII case.
pub open spec fn answers_to(p: Program, needle: Seq<char>) -> bool {
    same_ignoring_ascii_case(p.name@, needle) || match p.short_name {
        Some(s) => same_ignoring_ascii_case(s@, needle),
        None => false,
    }
}

/// URL of the first program at or after position `k` that answers to
/// `needle`.
pub open spec fn find_url_from(ps: Seq<Program>, needle: Seq<char>, k: int) -> Option<Seq<char>>
    decreases ps.len() - k,
{
    if k < 0 || k >= ps.len() {
        None
    } else if answers_to(ps[k], needle) {
        Some(ps[k].url@)
    } else {
        find_url_from(ps, needle, k + 1)
    }
}

/// Where an event links to: the URL of the program it names, if any program
/// (or competition) answers to that name.
pub open spec fn event_link(site: Site, e: TimelineEvent) -> Option<Seq<char>> {
    match e.program {
        Some(n) => find_url_from(all_programs(site), n@, 0),
        None => None,
    }
}

pub open spec fn month_name(m: u32) -> Seq<char> {
    if m == 1 {
        "January"@
    } else if m == 2 {
        "February"@
    } else if m == 3 {
        "March"@
    } else if m == 4 {
        "April"@
    } else if m == 5 {
        "May"@
    } else if m == 6 {
        "June"@
    } else if m == 7 {
        "July"@
    } else if m == 8 {
        "August"@
    } else if m == 9 {
        "September"@
    } else if m == 10 {
        "October"@
    } else if m == 11 {
        "November"@
    } else {
        "December"@
    }
}

pub open spec fn event_what_spec(site: Site, e: TimelineEvent) -> Seq<char> {
    match event_link(site, e) {
        Some(url) => "<a href=\""@ + escaped(url) + "\" rel=\"noopener\">"@ + escaped(e.event@)
            + "</a>"@,
        None => escaped(e.event@),
    }
}

pub open spec fn event_spec(site: Site, e: TimelineEvent) -> Seq<char> {
    "<li class=\"event"@ + (if e.approx {
        " is-approx"@
    } else {
        ""@
    }) + "\">\n"@ + "<span class=\"date\">"@ + escaped(e.date@) + "</span>\n"@
        + "<span class=\"what\">"@ + event_what_spec(site, e) + (match e.time {
        Some(t) => "<span class=\"meta\">"@ + escaped(t@) + "</span>"@,
        None => ""@,
    }) + (if e.approx {
        "<span class=\"meta\">approx</span>"@
    } else {
        ""@
    }) + "</span>\n</li>\n"@
}

/// The events of month `m` among the first `n` events, in data order.
pub open spec fn month_events(site: Site, m: u32, n: int) -> Seq<char>
    decreases n,
{
    if n <= 0 {
        seq![]
    } else if site.timeline.events@[n - 1].month == m {
        month_events(site, m, n - 1) + event_spec(site, site.timeline.events@[n - 1])
    } else {
        month_events(site, m, n - 1)
    }
}

pub open spec fn has_events_in(site: Site, m: u32) -> bool {
    exists|i: int|
        0 <= i < site.timeline.events@.len() && (#[trigger] site.timeline.events@[i]).month == m
}

/// A month's block; months without events get none.
pub open spec fn month_block(site: Site, m: u32) -> Seq<char> {
    if has_events_in(site, m) {
        "<div class=\"month\" id=\""@ + slug_spec(month_name(m)) + "\">\n"@ + "<h3>"@ + month_name(m)
            + " "@ + decimal(site.timeline.year as nat) + "</h3>\n"@
            + "<ul class=\"month-events\">\n"@ + month_events(
            site,
            m,
            site.timeline.events@.len() as int,
        ) + "</ul>\n</div>\n"@
    } else {
        ""@
    }
}

/// Blocks for months 1 through `m`, in calendar order.
pub open spec fn months_upto(site: Site, m: u32) -> Seq<char>
    decreases m,
{
    if m == 0 {
        seq![]
    } else {
        months_upto(site, (m - 1) as u32) + month_block(site, m)
    }
}

pub open spec fn timeline_body_spec(site: Site) -> Seq<char> {
    "<div class=\"page-head\"><div class=\"wrap\">\n"@ + "<h1>"@ + decimal(site.timeline.year as nat)
        + " timeline</h1>\n"@
        + "<p class=\"lede\">Application windows and contribution seasons for the programs on this list, in order. Dates marked approximate have not been confirmed by the organizers.</p>\n"@
        + "</div></div>\n"@ + "<section class=\"section\" style=\"border-top:0\"><div class=\"wrap\">\n"@
        + "<div class=\"months\">\n"@ + months_upto(site, 12) + "</div>\n</div></section>\n"@
}

fn month_name_exec(m: u32) -> (r: &'static str)
    ensures
        r@ == month_name(m),
{
    if m == 1 {
        "January"
    } else if m == 2 {
        "February"
    } else if m == 3 {
        "March"
    } else if m == 4 {
        "April"
    } else if m == 5 {
        "May"
    } else if m == 6 {
        "June"
    } else if m == 7 {
        "July"
    } else if m == 8 {
        "August"
    } else if m == 9 {
        "September"
    } else if m == 10 {
        "October"
    } else if m == 11 {
        "November"
    } else {
        "December"
    }
}

fn program_answers(p: &Program, needle: &str) -> (r: bool)
    ensures
        r == answers_to(*p, needle@),
{
    let short_match = match &p.short_name {
        Some(s) => eq_ignore_case(s.as_str(), needle),
        None => false,
    };
    eq_ignore_case(p.name.as_str(), needle) || short_match
}

/// Look up a program's URL by name or short name so events can link out.
fn find_url<'a>(site: &'a Site, needle: &str) -> (r: Option<&'a str>)
    ensures
        match r {
            Some(u) => find_url_from(all_programs(*site), needle@, 0) == Some(u@),
            None => find_url_from(all_programs(*site), needle@, 0) is None,
        },
{
    let ghost all = all_programs(*site);
    let np = site.programs.len();
    let mut k: usize = 0;
    while k < np
        invariant
            np == site.programs.len(),
            all == all_programs(*site),
            k <= np,
            find_url_from(all, needle@, 0) == find_url_from(all, needle@, k as int),
        decreases np - k,
    {
        let p = &site.programs[k];
        assert(*p == all[k as int]);
        if program_answers(p, needle) {
            return Some(p.url.as_str());
        }
        k += 1;
    }
    let nc = site.competitions.len();
    let mut j: usize = 0;
    while j < nc
        invariant
            np == site.programs.len(),
            nc == site.competitions.len(),
            all == all_programs(*site),
            j <= nc,
            find_url_from(all, needle@, 0) == find_url_from(all, needle@, np + j),
        decreases nc - j,
    {
        let p = &site.competitions[j];
        assert(*p == all[np + j]);
        if program_answers(p, needle) {
            return Some(p.url.as_str());
        }
        j += 1;
    }
    None
}

fn event_what(site: &Site, e: &TimelineEvent) -> (r: String)
    ensures
        r@ == event_what_spec(*site, *e),
{
    let link = match &e.program {
        Some(n) => find_url(site, n.as_str()),
        None => None,
    };
    match link {
        Some(url) => {
            let mut s = owned("<a href=\"");
            s.append(esc(url).as_str());
            s.append("\" rel=\"noopener\">");
            s.append(esc(e.event.as_str()).as_str());
            s.append("</a>");
            s
        },
        None => esc(e.event.as_str()),
    }
}

fn event(site: &Site, e: &TimelineEvent) -> (r: String)
    ensures
        r@ == event_spec(*site, *e),
{
    let mut b = owned("<li class=\"event");
    if e.approx {
        b.append(" is-approx");
    } else {
        b.append("");
    }
    b.append("\">\n");
    b.append("<span class=\"date\">");
    b.append(esc(e.date.as_str()).as_str());
    b.append("</span>\n");
    b.append("<span class=\"what\">");
    b.append(event_what(site, e).as_str());
    match &e.time {
        Some(t) => {
            let mut m = owned("<span class=\"meta\">");
            m.append(esc(t.as_str()).as_str());
            m.append("</span>");
            b.append(m.as_str());
        },
        None => b.append(""),
    }
    if e.approx {
        b.append("<span class=\"meta\">approx</span>");
    } else {
        b.append("");
    }
    b.append("</span>\n</li>\n");
    b
}

fn month(site: &Site, m: u32) -> (r: String)
    ensures
        r@ == month_block(*site, m),
{
    let events = &site.timeline.events;
    let mut items = String::new();
    let mut any = false;
    let mut i: usize = 0;
    assert(items@ =~= month_events(*site, m, 0));
    while i < events.len()
        invariant
            events == &site.timeline.events,
            i <= events.len(),
            items@ == month_events(*site, m, i as int),
            any == exists|k: int| 0 <= k < i && (#[trigger] events@[k]).month == m,
        decreases events.len() - i,
    {
        if events[i].month == m {
            items.append(event(site, &events[i]).as_str());
            any = true;
        }
        i += 1;
    }
    if !any {
        return owned("");
    }
    let name = month_name_exec(m);
    let mut b = owned("<div class=\"month\" id=\"");
    b.append(slugify(name).as_str());
    b.append("\">\n");
    b.append("<h3>");
    b.append(name);
    b.append(" ");
    push_decimal(&mut b, site.timeline.year as u64);
    b.append("</h3>\n");
    b.append("<ul class=\"month-events\">\n");
    b.append(items.as_str());
    b.append("</ul>\n</div>\n");
    b
}

/// The timeline page: the year's events grouped under their months, January
/// to December, each linking to its program when one answers to the name.
pub fn timeline(site: &Site) -> (page: Page<'_>)
    ensures
        page.title@ == site_page_title(1),
        page.description@ == site_page_description(1),
        page.path@ == site_page_path(1),
        page.nav@ == "timeline"@,
        page.body@ == timeline_body_spec(*site),
        page.json_ld is None,
{
    let mut b = owned("<div class=\"page-head\"><div class=\"wrap\">\n");
    b.append("<h1>");
    push_decimal(&mut b, site.timeline.year as u64);
    b.append(" timeline</h1>\n");
    b.append(
        "<p class=\"lede\">Application windows and contribution seasons for the programs on this list, in order. Dates marked approximate have not been confirmed by the organizers.</p>\n",
    );
    b.append("</div></div>\n");
    b.append("<section class=\"section\" style=\"border-top:0\"><div class=\"wrap\">\n");
    b.append("<div class=\"months\">\n");
    let mut months = String::new();
    let mut m: u32 = 1;
    assert(months@ =~= months_upto(*site, 0));
    while m <= 12
        invariant
            1 <= m <= 13,
            months@ == months_upto(*site, (m - 1) as u32),
        decreases 13 - m,
    {
        months.append(month(site, m).as_str());
        m += 1;
    }
    b.append(months.as_str());
    b.append("</div>\n</div></section>\n");
    Page {
        title: "2026 Timeline",
        description: "Month-by-month 2026 timeline of open source program deadlines: GSoC organization and contributor applications, Outreachy cohorts, Season of KDE, Hacktoberfest and more.",
        path: "/timeline/",
        nav: "timeline",
        body: b,
        json_ld: None,
    }
}

/// Law: the month headings are the English calendar names, January for
/// month 1 through December for month 12.
pub proof fn law_month_names_in_calendar_order(m: u32)
    requires
        1 <= m <= 12,
    ensures
        month_name(m) == seq![
            "January"@,
            "February"@,
            "March"@,
            "April"@,
            "May"@,
            "June"@,
            "July"@,
            "August"@,
            "September"@,
            "October"@,
            "November"@,
            "December"@,
        ][m - 1],
{
}

/// Law: no two months share a heading, so each month's events stand under
/// a heading of their own.
pub proof fn law_month_names_distinct(m1: u32, m2: u32)
    requires
        1 <= m1 <= 12,
        1 <= m2 <= 12,
        m1 != m2,
    ensures
        month_name(m1) != month_name(m2),
{
    reveal_strlit("January");
    reveal_strlit("February");
    reveal_strlit("March");
    reveal_strlit("April");
    reveal_strlit("May");
    reveal_strlit("June");
    reveal_strlit("July");
    reveal_strlit("August");
    reveal_strlit("September");
    reveal_strlit("October");
    reveal_strlit("November");
    reveal_strlit("December");
    let a = month_name(m1);
    let b = month_name(m2);
    if a == b {
        assert(a.len() == b.len());
        assert(a[0] == b[0]);
        assert(a[2] == b[2]);
    }
}

/// The heading that opens month `m`'s block.
pub open spec fn month_heading(site: Site, m: u32) -> Seq<char> {
    "<div class=\"month\" id=\""@ + slug_spec(month_name(m)) + "\">\n"@ + "<h3>"@ + month_name(m)
        + " "@ + decimal(site.timeline.year as nat) + "</h3>\n"@
}

proof fn lemma_month_events_has(site: Site, m: u32, n: int, i: int)
    requires
        0 <= i < n <= site.timeline.events@.len(),
        site.timeline.events@[i].month == m,
    ensures
        has_part(month_events(site, m, n), event_spec(site, site.timeline.events@[i])),
    decreases n,
{
    let e = site.timeline.events@[i];
    if i == n - 1 {
        lemma_has_part_self(event_spec(site, e));
        lemma_has_part_concat(month_events(site, m, n - 1), event_spec(site, e), event_spec(site, e));
    } else {
        lemma_month_events_has(site, m, n - 1, i);
        if site.timeline.events@[n - 1].month == m {
            lemma_has_part_concat(
                month_events(site, m, n - 1),
                event_spec(site, site.timeline.events@[n - 1]),
                event_spec(site, e),
            );
        }
    }
}

proof fn lemma_months_upto_has(site: Site, top: u32, m: u32)
    requires
        1 <= m <= top,
    ensures
        has_part(months_upto(site, top), month_block(site, m)),
    decreases top,
{
    if m == top {
        lemma_has_part_self(month_block(site, m));
        lemma_has_part_concat(months_upto(site, (top - 1) as u32), month_block(site, m), month_block(site, m));
    } else {
        lemma_months_upto_has(site, (top - 1) as u32, m);
        lemma_has_part_concat(months_upto(site, (top - 1) as u32), month_block(site, top), month_block(site, m));
    }
}

/// Law: every event of a month from 1 to 12 is listed in that month's block
/// of the timeline page, and the block opens with the month's heading: its
/// calendar name and the year.
pub proof fn law_events_under_their_month(site: Site, i: int)
    requires
        0 <= i < site.timeline.events@.len(),
        1 <= site.timeline.events@[i].month <= 12,
    ensures
        ({
            let e = site.timeline.events@[i];
            let m = e.month;
            let items = month_events(site, m, site.timeline.events@.len() as int);
            &&& has_part(items, event_spec(site, e))
            &&& has_part(
                timeline_body_spec(site),
                month_heading(site, m) + "<ul class=\"month-events\">\n"@ + items + "</ul>\n</div>\n"@,
            )
        }),
{
    let e = site.timeline.events@[i];
    let m = e.month;
    let n = site.timeline.events@.len() as int;
    let items = month_events(site, m, n);
    lemma_month_events_has(site, m, n, i);
    assert(has_events_in(site, m));
    let blk = month_heading(site, m) + "<ul class=\"month-events\">\n"@ + items + "</ul>\n</div>\n"@;
    assert(month_block(site, m) =~= blk);
    lemma_months_upto_has(site, 12, m);
    let head = "<div class=\"page-head\"><div class=\"wrap\">\n"@ + "<h1>"@ + decimal(site.timeline.year as nat)
        + " timeline</h1>\n"@
        + "<p class=\"lede\">Application windows and contribution seasons for the programs on this list, in order. Dates marked approximate have not been confirmed by the organizers.</p>\n"@
        + "</div></div>\n"@ + "<section class=\"section\" style=\"border-top:0\"><div class=\"wrap\">\n"@
        + "<div class=\"months\">\n"@;
    let all = months_upto(site, 12);
    let tail = "</div>\n</div></section>\n"@;
    assert(timeline_body_spec(site) =~= head + all + tail);
    lemma_has_part_middle(head, all, tail);
    lemma_has_part_trans(timeline_body_spec(site), all, blk);
}

} // verus!
