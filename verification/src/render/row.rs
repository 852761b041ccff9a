//! One program row of the home page list.
use vstd::prelude::*;
use vstd::string::*;

use crate::model::{display_spec, has_amount_spec, sub_note_spec, Program, Stipend};
use crate::render::icon;
use crate::render::text::{esc, escaped, has_part, lemma_has_part_middle, slug_spec, slugify};
use crate::strings::{owned, same_text};

verus! {

/// The tags joined by single spaces.
pub open spec fn joined_tags(tags: Seq<String>, n: int) -> Seq<char>
    decreases n,
{
    if n <= 0 {
        seq![]
    } else if n == 1 {
        tags[0]@
    } else {
        joined_tags(tags, n - 1) + " "@ + tags[n - 1]@
    }
}

/// The text the client-side search matches against: name, org, short name,
/// eligibility and timeline.
pub open spec fn haystack_spec(p: Program) -> Seq<char> {
    p.name@ + " "@ + p.org@ + " "@ + (match p.short_name {
        Some(s) => s@ + " "@,
        None => ""@,
    }) + (match p.eligibility {
        Some(e) => e@ + " "@,
        None => ""@,
    }) + (match p.timeline {
        Some(t) => t@,
        None => ""@,
    })
}

/// Tags that get a visible chip; the rest only drive filtering.
pub open spec fn shown_tag(t: Seq<char>) -> bool {
    t == "beginner-friendly"@ || t == "underrepresented"@ || t == "students"@
}

pub open spec fn tag_chip_spec(t: Seq<char>) -> Seq<char> {
    "<span class=\"tag t-"@ + slug_spec(t) + "\">"@ + escaped(t) + "</span>"@
}

pub open spec fn tag_chips(tags: Seq<String>, n: int) -> Seq<char>
    decreases n,
{
    if n <= 0 {
        seq![]
    } else if shown_tag(tags[n - 1]@) {
        tag_chips(tags, n - 1) + tag_chip_spec(tags[n - 1]@)
    } else {
        tag_chips(tags, n - 1)
    }
}

pub open spec fn any_shown(tags: Seq<String>) -> bool {
    exists|i: int| 0 <= i < tags.len() && shown_tag((#[trigger] tags[i])@)
}

pub open spec fn tags_block_spec(p: Program) -> Seq<char> {
    if any_shown(p.tags@) {
        "<div class=\"tags\">\n"@ + tag_chips(p.tags@, p.tags@.len() as int) + "\n</div>\n"@
    } else {
        ""@
    }
}

pub open spec fn elig_spec(p: Program) -> Seq<char> {
    match p.eligibility {
        Some(e) => "<p class=\"row-elig\">"@ + escaped(e@) + "</p>\n"@,
        None => ""@,
    }
}

pub open spec fn caveat_spec(p: Program) -> Seq<char> {
    match p.caveat {
        Some(c) => "<p class=\"caveat\">"@ + icon::ALERT@ + "<span>"@ + escaped(c@) + "</span></p>\n"@,
        None => ""@,
    }
}

pub open spec fn when_spec(p: Program) -> Seq<char> {
    match p.timeline {
        Some(t) => "<span class=\"when-text\">"@ + escaped(t@) + "</span>\n"@,
        None => "<span class=\"when-text\">Not announced</span>\n"@,
    }
}

pub open spec fn stipend_pay_spec(s: Stipend) -> Seq<char> {
    "<div class=\"amount"@ + (if has_amount_spec(s) {
        ""@
    } else {
        " is-vague"@
    }) + "\">"@ + escaped(display_spec(s)) + "</div>\n"@ + (match sub_note_spec(s) {
        Some(n) => "<div class=\"pay-note\">"@ + escaped(n) + "</div>\n"@,
        None => ""@,
    })
}

/// The money column: rewards win over a stipend; with neither, "Not stated".
pub open spec fn pay_spec(p: Program) -> Seq<char> {
    match p.rewards {
        Some(r) => "<div class=\"amount is-vague\">"@ + escaped(r@) + "</div>\n"@,
        None => match p.stipend {
            Some(s) => stipend_pay_spec(s),
            None => "<div class=\"amount is-vague\">Not stated</div>\n"@,
        },
    }
}

/// The whole `<li>` of one program.
pub open spec fn row_spec(p: Program) -> Seq<char> {
    "<li class=\"row\" data-row data-tags=\""@ + escaped(joined_tags(p.tags@, p.tags@.len() as int))
        + "\" data-search-text=\""@ + escaped(haystack_spec(p)) + "\">\n"@
        + "<div class=\"row-main\">\n"@ + "<h3 class=\"row-title\"><a href=\""@ + escaped(p.url@)
        + "\" rel=\"noopener\">"@ + escaped(p.name@) + icon::EXTERNAL@ + "</a></h3>\n"@
        + "<div class=\"row-org\">"@ + escaped(p.org@) + "</div>\n"@ + elig_spec(p)
        + tags_block_spec(p) + caveat_spec(p) + "</div>\n"@ + "<div class=\"row-when\">\n"@
        + "<span class=\"when-label\">Timeline</span>\n"@ + when_spec(p) + "</div>\n"@
        + "<div class=\"row-pay\">\n"@ + "<span class=\"pay-label\">Stipend</span>\n"@
        + pay_spec(p) + "</div>\n"@ + "</li>\n"@
}

fn join_tags(tags: &Vec<String>) -> (r: String)
    ensures
        r@ == joined_tags(tags@, tags@.len() as int),
{
    let mut s = owned("");
    let mut i: usize = 0;
    proof {
        reveal_strlit("");
    }
    assert(s@ =~= joined_tags(tags@, 0));
    while i < tags.len()
        invariant
            i <= tags.len(),
            s@ == joined_tags(tags@, i as int),
        decreases tags.len() - i,
    {
        if i == 0 {
            s = tags[0].clone();
        } else {
            s.append(" ");
            s.append(tags[i].as_str());
        }
        i += 1;
    }
    s
}

fn haystack(p: &Program) -> (r: String)
    ensures
        r@ == haystack_spec(*p),
{
    let mut h = owned(p.name.as_str());
    h.append(" ");
    h.append(p.org.as_str());
    h.append(" ");
    match &p.short_name {
        Some(s) => {
            let mut t = owned(s.as_str());
            t.append(" ");
            h.append(t.as_str());
        },
        None => h.append(""),
    }
    match &p.eligibility {
        Some(e) => {
            let mut t = owned(e.as_str());
            t.append(" ");
            h.append(t.as_str());
        },
        None => h.append(""),
    }
    match &p.timeline {
        Some(t) => h.append(t.as_str()),
        None => h.append(""),
    }
    h
}

fn is_shown_tag(t: &str) -> (r: bool)
    ensures
        r == shown_tag(t@),
{
    same_text(t, "beginner-friendly") || same_text(t, "underrepresented") || same_text(
        t,
        "students",
    )
}

fn tags_block(p: &Program) -> (r: String)
    ensures
        r@ == tags_block_spec(*p),
{
    let tags = &p.tags;
    let mut chips = String::new();
    let mut any = false;
    let mut i: usize = 0;
    assert(chips@ =~= tag_chips(tags@, 0));
    while i < tags.len()
        invariant
            i <= tags.len(),
            tags == &p.tags,
            chips@ == tag_chips(tags@, i as int),
            any == exists|k: int| 0 <= k < i && shown_tag((#[trigger] tags@[k])@),
        decreases tags.len() - i,
    {
        let t = tags[i].as_str();
        if is_shown_tag(t) {
            chips.append("<span class=\"tag t-");
            chips.append(slugify(t).as_str());
            chips.append("\">");
            chips.append(esc(t).as_str());
            chips.append("</span>");
            any = true;
        }
        i += 1;
    }
    if any {
        let mut b = owned("<div class=\"tags\">\n");
        b.append(chips.as_str());
        b.append("\n</div>\n");
        b
    } else {
        owned("")
    }
}

fn elig(p: &Program) -> (r: String)
    ensures
        r@ == elig_spec(*p),
{
    match &p.eligibility {
        Some(e) => {
            let mut s = owned("<p class=\"row-elig\">");
            s.append(esc(e.as_str()).as_str());
            s.append("</p>\n");
            s
        },
        None => owned(""),
    }
}

fn caveat(p: &Program) -> (r: String)
    ensures
        r@ == caveat_spec(*p),
{
    match &p.caveat {
        Some(c) => {
            let mut s = owned("<p class=\"caveat\">");
            s.append(icon::ALERT);
            s.append("<span>");
            s.append(esc(c.as_str()).as_str());
            s.append("</span></p>\n");
            s
        },
        None => owned(""),
    }
}

fn when(p: &Program) -> (r: String)
    ensures
        r@ == when_spec(*p),
{
    match &p.timeline {
        Some(t) => {
            let mut s = owned("<span class=\"when-text\">");
            s.append(esc(t.as_str()).as_str());
            s.append("</span>\n");
            s
        },
        None => owned("<span class=\"when-text\">Not announced</span>\n"),
    }
}

fn stipend_pay(st: &Stipend) -> (r: String)
    ensures
        r@ == stipend_pay_spec(*st),
{
    let mut s = owned("<div class=\"amount");
    if st.has_amount() {
        s.append("");
    } else {
        s.append(" is-vague");
    }
    s.append("\">");
    s.append(esc(st.display().as_str()).as_str());
    s.append("</div>\n");
    match st.sub_note() {
        Some(n) => {
            let mut t = owned("<div class=\"pay-note\">");
            t.append(esc(n).as_str());
            t.append("</div>\n");
            s.append(t.as_str());
        },
        None => s.append(""),
    }
    s
}

fn pay(p: &Program) -> (r: String)
    ensures
        r@ == pay_spec(*p),
{
    match &p.rewards {
        Some(rw) => {
            let mut s = owned("<div class=\"amount is-vague\">");
            s.append(esc(rw.as_str()).as_str());
            s.append("</div>\n");
            s
        },
        None => match &p.stipend {
            Some(st) => stipend_pay(st),
            None => owned("<div class=\"amount is-vague\">Not stated</div>\n"),
        },
    }
}

/// One program row.
pub fn program_row(p: &Program) -> (r: String)
    ensures
        r@ == row_spec(*p),
{
    let mut h = owned("<li class=\"row\" data-row data-tags=\"");
    h.append(esc(join_tags(&p.tags).as_str()).as_str());
    h.append("\" data-search-text=\"");
    h.append(esc(haystack(p).as_str()).as_str());
    h.append("\">\n");
    // Main column.
    h.append("<div class=\"row-main\">\n");
    h.append("<h3 class=\"row-title\"><a href=\"");
    h.append(esc(p.url.as_str()).as_str());
    h.append("\" rel=\"noopener\">");
    h.append(esc(p.display_name()).as_str());
    h.append(icon::EXTERNAL);
    h.append("</a></h3>\n");
    h.append("<div class=\"row-org\">");
    h.append(esc(p.org.as_str()).as_str());
    h.append("</div>\n");
    h.append(elig(p).as_str());
    // Only tags that actually distinguish this row get rendered; all tags
    // stay in `data-tags` above so the filter chips keep working.
    h.append(tags_block(p).as_str());
    h.append(caveat(p).as_str());
    h.append("</div>\n");
    // Timeline column.
    h.append("<div class=\"row-when\">\n");
    h.append("<span class=\"when-label\">Timeline</span>\n");
    h.append(when(p).as_str());
    h.append("</div>\n");
    // Money column.
    h.append("<div class=\"row-pay\">\n");
    h.append("<span class=\"pay-label\">Stipend</span>\n");
    h.append(pay(p).as_str());
    h.append("</div>\n");
    h.append("</li>\n");
    h
}

// ---------------------------------------------------------------------------
// What a row shows.
// ---------------------------------------------------------------------------

/// The row's opening up to the title link.
pub open spec fn row_lead(p: Program) -> Seq<char> {
    "<li class=\"row\" data-row data-tags=\""@ + escaped(joined_tags(p.tags@, p.tags@.len() as int))
        + "\" data-search-text=\""@ + escaped(haystack_spec(p)) + "\">\n"@
        + "<div class=\"row-main\">\n"@ + "<h3 class=\"row-title\">"@
}

/// The title link: the escaped name, pointing at the escaped URL.
pub open spec fn title_link(p: Program) -> Seq<char> {
    "<a href=\""@ + escaped(p.url@) + "\" rel=\"noopener\">"@ + escaped(p.name@) + icon::EXTERNAL@
        + "</a></h3>\n"@
}

/// The caveat warning, closing the main column before the timeline one.
pub open spec fn caveat_para(c: Seq<char>) -> Seq<char> {
    "<p class=\"caveat\">"@ + icon::ALERT@ + "<span>"@ + escaped(c) + "</span></p>\n"@
        + "</div>\n"@ + "<div class=\"row-when\">\n"@
}

proof fn lemma_lead_title(p: Program)
    ensures
        row_lead(p) + title_link(p) == "<li class=\"row\" data-row data-tags=\""@ + escaped(
            joined_tags(p.tags@, p.tags@.len() as int),
        ) + "\" data-search-text=\""@ + escaped(haystack_spec(p)) + "\">\n"@
            + "<div class=\"row-main\">\n"@ + "<h3 class=\"row-title\"><a href=\""@ + escaped(p.url@)
            + "\" rel=\"noopener\">"@ + escaped(p.name@) + icon::EXTERNAL@ + "</a></h3>\n"@,
{
    reveal_strlit("<h3 class=\"row-title\"><a href=\"");
    reveal_strlit("<h3 class=\"row-title\">");
    reveal_strlit("<a href=\"");
    assert("<h3 class=\"row-title\">"@ + "<a href=\""@ =~= "<h3 class=\"row-title\"><a href=\""@);
    assert(row_lead(p) + title_link(p) =~= "<li class=\"row\" data-row data-tags=\""@ + escaped(
        joined_tags(p.tags@, p.tags@.len() as int),
    ) + "\" data-search-text=\""@ + escaped(haystack_spec(p)) + "\">\n"@
        + "<div class=\"row-main\">\n"@ + "<h3 class=\"row-title\"><a href=\""@ + escaped(p.url@)
        + "\" rel=\"noopener\">"@ + escaped(p.name@) + icon::EXTERNAL@ + "</a></h3>\n"@);
}

#[verifier::rlimit(60)]
proof fn lemma_row_head(p: Program)
    ensures
        has_part(row_spec(p), title_link(p)),
        has_part(row_spec(p), "<div class=\"row-org\">"@ + escaped(p.org@) + "</div>\n"@),
{
    lemma_lead_title(p);
    let org = "<div class=\"row-org\">"@ + escaped(p.org@) + "</div>\n"@;
    let rest = elig_spec(p) + tags_block_spec(p) + caveat_spec(p) + "</div>\n"@
        + "<div class=\"row-when\">\n"@ + "<span class=\"when-label\">Timeline</span>\n"@
        + when_spec(p) + "</div>\n"@ + "<div class=\"row-pay\">\n"@
        + "<span class=\"pay-label\">Stipend</span>\n"@ + pay_spec(p) + "</div>\n"@ + "</li>\n"@;
    assert(row_spec(p) =~= row_lead(p) + title_link(p) + (org + rest));
    lemma_has_part_middle(row_lead(p), title_link(p), org + rest);
    assert(row_spec(p) =~= (row_lead(p) + title_link(p)) + org + rest);
    lemma_has_part_middle(row_lead(p) + title_link(p), org, rest);
}

#[verifier::rlimit(60)]
proof fn lemma_row_main(p: Program)
    ensures
        has_part(row_spec(p), elig_spec(p)),
        has_part(
            row_spec(p),
            caveat_spec(p) + "</div>\n"@ + "<div class=\"row-when\">\n"@,
        ),
{
    lemma_lead_title(p);
    let head = row_lead(p) + title_link(p) + "<div class=\"row-org\">"@ + escaped(p.org@)
        + "</div>\n"@;
    let cav = caveat_spec(p) + "</div>\n"@ + "<div class=\"row-when\">\n"@;
    let rest = "<span class=\"when-label\">Timeline</span>\n"@ + when_spec(p) + "</div>\n"@
        + "<div class=\"row-pay\">\n"@ + "<span class=\"pay-label\">Stipend</span>\n"@ + pay_spec(p)
        + "</div>\n"@ + "</li>\n"@;
    assert(row_spec(p) =~= head + elig_spec(p) + (tags_block_spec(p) + cav + rest));
    lemma_has_part_middle(head, elig_spec(p), tags_block_spec(p) + cav + rest);
    assert(row_spec(p) =~= (head + elig_spec(p) + tags_block_spec(p)) + cav + rest);
    lemma_has_part_middle(head + elig_spec(p) + tags_block_spec(p), cav, rest);
}

#[verifier::rlimit(60)]
proof fn lemma_row_side(p: Program)
    ensures
        has_part(row_spec(p), when_spec(p)),
        has_part(row_spec(p), pay_spec(p)),
{
    lemma_lead_title(p);
    let head = row_lead(p) + title_link(p) + "<div class=\"row-org\">"@ + escaped(p.org@)
        + "</div>\n"@ + elig_spec(p) + tags_block_spec(p) + caveat_spec(p) + "</div>\n"@
        + "<div class=\"row-when\">\n"@ + "<span class=\"when-label\">Timeline</span>\n"@;
    let mid = "</div>\n"@ + "<div class=\"row-pay\">\n"@ + "<span class=\"pay-label\">Stipend</span>\n"@;
    let tail = "</div>\n"@ + "</li>\n"@;
    assert(row_spec(p) =~= head + when_spec(p) + (mid + pay_spec(p) + tail));
    lemma_has_part_middle(head, when_spec(p), mid + pay_spec(p) + tail);
    assert(row_spec(p) =~= (head + when_spec(p) + mid) + pay_spec(p) + tail);
    lemma_has_part_middle(head + when_spec(p) + mid, pay_spec(p), tail);
}

/// Law: a program's row shows what the data says of it, escaped: the name
/// as a link to the URL, the org, and each optional field that is set. The
/// eligibility gets its line, a caveat its inline warning at the end of the
/// main column (just before the timeline column), the timeline its text,
/// and rewards stand in the money column.
pub proof fn law_row_shows_fields(p: Program)
    ensures
        has_part(row_spec(p), title_link(p)),
        has_part(row_spec(p), "<div class=\"row-org\">"@ + escaped(p.org@) + "</div>\n"@),
        p.eligibility matches Some(e) ==> has_part(
            row_spec(p),
            "<p class=\"row-elig\">"@ + escaped(e@) + "</p>\n"@,
        ),
        p.caveat matches Some(c) ==> has_part(row_spec(p), caveat_para(c@)),
        p.timeline matches Some(t) ==> has_part(
            row_spec(p),
            "<span class=\"when-text\">"@ + escaped(t@) + "</span>\n"@,
        ),
        p.rewards matches Some(r) ==> has_part(
            row_spec(p),
            "<div class=\"amount is-vague\">"@ + escaped(r@) + "</div>\n"@,
        ),
{
    lemma_row_head(p);
    lemma_row_main(p);
    lemma_row_side(p);
    if let Some(c) = p.caveat {
        assert(caveat_spec(p) + "</div>\n"@ + "<div class=\"row-when\">\n"@ =~= caveat_para(c@));
    }
}

} // verus!
