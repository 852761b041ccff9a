//! The home page: every program, highest stipend first, then competitions.
use vstd::prelude::*;
use vstd::string::*;

use crate::json::{json_quote, json_string};
use crate::model::{is_paid_spec, stipend_sort_spec, Program, Site};
use crate::render::icon;
use crate::render::row::{caveat_para, law_row_shows_fields, program_row, row_spec};
use crate::render::text::{has_part, lemma_has_part_concat, lemma_has_part_middle, lemma_has_part_self, lemma_has_part_trans};
use crate::render::shell::{site_page_description, site_page_path, site_page_title, Page};
use crate::strings::{
    decimal, lemma_text_lt_asymmetric, lemma_text_lt_irreflexive, lemma_text_lt_total,
    lemma_text_lt_transitive, owned, push_decimal, same_text, text_less, text_lt,
};

verus! {

// ---------------------------------------------------------------------------
// Ordering: highest stipend first, then by name, then by position.
// ---------------------------------------------------------------------------

/// Whether program `i` comes before program `j` on the home page: a higher
/// stipend sort key first; on equal keys, the name that sorts first
/// (`str` order); on equal names, the one listed first in the data (the sort
/// is stable).
pub open spec fn ranks_before(ps: Seq<Program>, i: int, j: int) -> bool {
    let si = stipend_sort_spec(ps[i]);
    let sj = stipend_sort_spec(ps[j]);
    ||| si > sj
    ||| si == sj && text_lt(ps[i].name@, ps[j].name@)
    ||| si == sj && ps[i].name@ == ps[j].name@ && i < j
}

/// `o` lists every program index exactly once, in `ranks_before` order.
pub open spec fn is_stipend_order(ps: Seq<Program>, o: Seq<usize>) -> bool {
    &&& o.len() == ps.len()
    &&& forall|k: int| 0 <= k < o.len() ==> (#[trigger] o[k]) < ps.len()
    &&& forall|x: usize| x < ps.len() ==> o.contains(x)
    &&& forall|a: int, b: int|
        0 <= a < b < o.len() ==> ranks_before(ps, #[trigger] o[a] as int, #[trigger] o[b] as int)
}

/// The home page order of the programs (there is exactly one such order:
/// see `lemma_stipend_order_unique`).
pub open spec fn stipend_order(ps: Seq<Program>) -> Seq<usize> {
    choose|o: Seq<usize>| is_stipend_order(ps, o)
}

pub proof fn lemma_ranks_before_irreflexive(ps: Seq<Program>, i: int)
    ensures
        !ranks_before(ps, i, i),
{
    lemma_text_lt_irreflexive(ps[i].name@);
}

pub proof fn lemma_ranks_before_asymmetric(ps: Seq<Program>, i: int, j: int)
    ensures
        ranks_before(ps, i, j) ==> !ranks_before(ps, j, i),
{
    lemma_text_lt_asymmetric(ps[i].name@, ps[j].name@);
    lemma_text_lt_irreflexive(ps[i].name@);
}

pub proof fn lemma_ranks_before_total(ps: Seq<Program>, i: int, j: int)
    ensures
        i != j ==> ranks_before(ps, i, j) || ranks_before(ps, j, i),
{
    lemma_text_lt_total(ps[i].name@, ps[j].name@);
}

pub proof fn lemma_ranks_before_transitive(ps: Seq<Program>, i: int, j: int, k: int)
    ensures
        ranks_before(ps, i, j) && ranks_before(ps, j, k) ==> ranks_before(ps, i, k),
{
    lemma_text_lt_transitive(ps[i].name@, ps[j].name@, ps[k].name@);
    lemma_text_lt_asymmetric(ps[i].name@, ps[j].name@);
}

proof fn lemma_orders_agree_at(ps: Seq<Program>, o1: Seq<usize>, o2: Seq<usize>, k: int)
    requires
        is_stipend_order(ps, o1),
        is_stipend_order(ps, o2),
        0 <= k < o1.len(),
        forall|j: int| 0 <= j < k ==> o1[j] == o2[j],
    ensures
        o1[k] == o2[k],
{
    let x = o1[k];
    let y = o2[k];
    if x != y {
        assert(o2.contains(x));
        let m = choose|m: int| 0 <= m < o2.len() && o2[m] == x;
        assert(o1.contains(y));
        let m2 = choose|m: int| 0 <= m < o1.len() && o1[m] == y;
        if m < k {
            assert(o1[m] == x);
            assert(ranks_before(ps, o1[m] as int, o1[k] as int));
            lemma_ranks_before_irreflexive(ps, x as int);
        } else if m2 < k {
            assert(o2[m2] == y);
            assert(ranks_before(ps, o2[m2] as int, o2[k] as int));
            lemma_ranks_before_irreflexive(ps, y as int);
        } else {
            assert(m > k && m2 > k);
            assert(ranks_before(ps, o2[k] as int, o2[m] as int));
            assert(ranks_before(ps, o1[k] as int, o1[m2] as int));
            lemma_ranks_before_asymmetric(ps, x as int, y as int);
        }
    }
}

proof fn lemma_orders_agree_upto(ps: Seq<Program>, o1: Seq<usize>, o2: Seq<usize>, k: int)
    requires
        is_stipend_order(ps, o1),
        is_stipend_order(ps, o2),
        0 <= k <= o1.len(),
    ensures
        forall|j: int| 0 <= j < k ==> o1[j] == o2[j],
    decreases k,
{
    if k > 0 {
        lemma_orders_agree_upto(ps, o1, o2, k - 1);
        lemma_orders_agree_at(ps, o1, o2, k - 1);
    }
}

/// Law: the home page order is unique. Any two ways of listing every program
/// once in `ranks_before` order are the same list.
pub proof fn lemma_stipend_order_unique(ps: Seq<Program>, o1: Seq<usize>, o2: Seq<usize>)
    requires
        is_stipend_order(ps, o1),
        is_stipend_order(ps, o2),
    ensures
        o1 == o2,
{
    lemma_orders_agree_upto(ps, o1, o2, o1.len() as int);
    assert(o1 =~= o2);
}

/// Position at which `x` goes into the ordered list `o`: before the first
/// entry at or after `k` that it ranks before.
pub open spec fn insert_pos(ps: Seq<Program>, o: Seq<usize>, x: usize, k: int) -> int
    decreases o.len() - k,
{
    if k < 0 || k >= o.len() {
        o.len() as int
    } else if ranks_before(ps, x as int, o[k] as int) {
        k
    } else {
        insert_pos(ps, o, x, k + 1)
    }
}

proof fn lemma_insert_pos(ps: Seq<Program>, o: Seq<usize>, x: usize, k: int)
    requires
        0 <= k <= o.len(),
    ensures
        k <= insert_pos(ps, o, x, k) <= o.len(),
        forall|a: int| k <= a < insert_pos(ps, o, x, k) ==> !ranks_before(ps, x as int, #[trigger] o[a] as int),
        insert_pos(ps, o, x, k) < o.len() ==> ranks_before(ps, x as int, o[insert_pos(ps, o, x, k)] as int),
    decreases o.len() - k,
{
    if k < o.len() && !ranks_before(ps, x as int, o[k] as int) {
        lemma_insert_pos(ps, o, x, k + 1);
    }
}

/// The first `n` program indices, inserted one by one in rank order.
pub open spec fn rank_prefix(ps: Seq<Program>, n: nat) -> Seq<usize>
    decreases n,
{
    if n == 0 {
        seq![]
    } else {
        let o = rank_prefix(ps, (n - 1) as nat);
        let x = (n - 1) as usize;
        o.insert(insert_pos(ps, o, x, 0), x)
    }
}

proof fn lemma_rank_prefix(ps: Seq<Program>, n: nat)
    requires
        n <= ps.len(),
        ps.len() <= usize::MAX,
    ensures
        rank_prefix(ps, n).len() == n,
        forall|k: int| 0 <= k < n ==> (#[trigger] rank_prefix(ps, n)[k]) < n,
        forall|x: usize| x < n ==> rank_prefix(ps, n).contains(x),
        forall|a: int, b: int|
            0 <= a < b < n ==> ranks_before(
                ps,
                #[trigger] rank_prefix(ps, n)[a] as int,
                #[trigger] rank_prefix(ps, n)[b] as int,
            ),
    decreases n,
{
    if n > 0 {
        lemma_rank_prefix(ps, (n - 1) as nat);
        let o = rank_prefix(ps, (n - 1) as nat);
        let i = (n - 1) as usize;
        let pos = insert_pos(ps, o, i, 0);
        lemma_insert_pos(ps, o, i, 0);
        let out = o.insert(pos, i);
        assert(out == rank_prefix(ps, n));
        assert forall|a: int| 0 <= a < pos implies ranks_before(ps, #[trigger] o[a] as int, i as int) by {
            lemma_ranks_before_total(ps, i as int, o[a] as int);
        }
        assert forall|a: int| pos <= a < o.len() implies ranks_before(ps, i as int, #[trigger] o[a] as int) by {
            if a > pos {
                lemma_ranks_before_transitive(ps, i as int, o[pos] as int, o[a] as int);
            }
        }
        assert forall|x: usize| x < n implies out.contains(x) by {
            if x == i {
                assert(out[pos] == i);
            } else {
                assert(o.contains(x));
                let m = choose|m: int| 0 <= m < o.len() && o[m] == x;
                if m < pos {
                    assert(out[m] == x);
                } else {
                    assert(out[m + 1] == x);
                }
            }
        }
        assert forall|k: int| 0 <= k < n implies (#[trigger] out[k]) < n by {
            if k < pos {
            } else if k > pos {
                assert(out[k] == o[k - 1]);
            }
        }
        assert forall|a: int, b: int| 0 <= a < b < n implies ranks_before(
            ps,
            #[trigger] out[a] as int,
            #[trigger] out[b] as int,
        ) by {
            if b < pos {
            } else if b == pos {
            } else if a < pos {
                assert(out[b] == o[b - 1]);
                lemma_ranks_before_transitive(ps, out[a] as int, i as int, out[b] as int);
            } else if a == pos {
                assert(out[b] == o[b - 1]);
            } else {
                assert(out[a] == o[a - 1]);
                assert(out[b] == o[b - 1]);
            }
        }
    }
}

/// Law: the home page lists every program exactly once, highest stipend
/// first; equal stipends are in name order, and equal names keep their order
/// in the data.
pub proof fn law_home_order(ps: Seq<Program>)
    requires
        ps.len() <= usize::MAX,
    ensures
        is_stipend_order(ps, stipend_order(ps)),
        forall|a: int, b: int|
            0 <= a < b < ps.len() ==> stipend_sort_spec(ps[#[trigger] stipend_order(ps)[a] as int])
                >= stipend_sort_spec(ps[#[trigger] stipend_order(ps)[b] as int]),
        forall|x: usize| x < ps.len() ==> stipend_order(ps).contains(x),
{
    lemma_rank_prefix(ps, ps.len());
    assert(is_stipend_order(ps, rank_prefix(ps, ps.len())));
    let o = stipend_order(ps);
    assert(is_stipend_order(ps, o));
    assert forall|a: int, b: int| 0 <= a < b < ps.len() implies stipend_sort_spec(ps[#[trigger] o[a] as int])
        >= stipend_sort_spec(ps[#[trigger] o[b] as int]) by {
        assert(ranks_before(ps, o[a] as int, o[b] as int));
    }
}

fn ranks_before_exec(ps: &Vec<Program>, i: usize, j: usize) -> (r: bool)
    requires
        i < ps.len(),
        j < ps.len(),
    ensures
        r == ranks_before(ps@, i as int, j as int),
{
    let si = ps[i].stipend_sort();
    let sj = ps[j].stipend_sort();
    if si != sj {
        si > sj
    } else if text_less(ps[i].name.as_str(), ps[j].name.as_str()) {
        true
    } else {
        same_text(ps[i].name.as_str(), ps[j].name.as_str()) && i < j
    }
}

/// The indices of `ps` in home page order.
pub fn order_by_stipend(ps: &Vec<Program>) -> (o: Vec<usize>)
    ensures
        is_stipend_order(ps@, o@),
        o@ == stipend_order(ps@),
{
    let n = ps.len();
    let mut out: Vec<usize> = Vec::new();
    let mut i: usize = 0;
    while i < n
        invariant
            n == ps.len(),
            i <= n,
            out.len() == i,
            forall|k: int| 0 <= k < out.len() ==> (#[trigger] out@[k]) < i,
            forall|x: usize| x < i ==> out@.contains(x),
            forall|a: int, b: int|
                0 <= a < b < out.len() ==> ranks_before(
                    ps@,
                    #[trigger] out@[a] as int,
                    #[trigger] out@[b] as int,
                ),
        decreases n - i,
    {
        let mut pos: usize = 0;
        while pos < out.len() && !ranks_before_exec(ps, i, out[pos])
            invariant
                n == ps.len(),
                i < n,
                pos <= out.len(),
                forall|k: int| 0 <= k < out.len() ==> (#[trigger] out@[k]) < i,
                forall|a: int| 0 <= a < pos ==> !ranks_before(ps@, i as int, #[trigger] out@[a] as int),
            decreases out.len() - pos,
        {
            pos += 1;
        }
        let ghost old_out = out@;
        proof {
            assert forall|a: int| 0 <= a < pos implies ranks_before(ps@, #[trigger] old_out[a] as int, i as int) by {
                lemma_ranks_before_total(ps@, i as int, old_out[a] as int);
            }
            assert forall|a: int| pos <= a < old_out.len() implies ranks_before(ps@, i as int, #[trigger] old_out[a] as int) by {
                if a > pos {
                    lemma_ranks_before_transitive(ps@, i as int, old_out[pos as int] as int, old_out[a] as int);
                }
            }
        }
        out.insert(pos, i);
        proof {
            assert(out@ =~= old_out.insert(pos as int, i));
            assert forall|x: usize| x < i + 1 implies out@.contains(x) by {
                if x == i {
                    assert(out@[pos as int] == i);
                } else {
                    assert(old_out.contains(x));
                    let m = choose|m: int| 0 <= m < old_out.len() && old_out[m] == x;
                    if m < pos {
                        assert(out@[m] == x);
                    } else {
                        assert(out@[m + 1] == x);
                    }
                }
            }
            assert forall|a: int, b: int| 0 <= a < b < out.len() implies ranks_before(
                ps@,
                #[trigger] out@[a] as int,
                #[trigger] out@[b] as int,
            ) by {
                if b < pos {
                } else if b == pos {
                } else if a < pos {
                    assert(out@[b] == old_out[b - 1]);
                    lemma_ranks_before_transitive(ps@, out@[a] as int, i as int, out@[b] as int);
                } else if a == pos {
                    assert(out@[b] == old_out[b - 1]);
                } else {
                    assert(out@[a] == old_out[a - 1]);
                    assert(out@[b] == old_out[b - 1]);
                }
            }
        }
        i += 1;
    }
    proof {
        assert(is_stipend_order(ps@, out@));
        assert(exists|o: Seq<usize>| is_stipend_order(ps@, o));
        lemma_stipend_order_unique(ps@, out@, stipend_order(ps@));
    }
    out
}

// ---------------------------------------------------------------------------
// Page body.
// ---------------------------------------------------------------------------

/// How many of the first `n` programs are tagged `paid`.
pub open spec fn count_paid(ps: Seq<Program>, n: int) -> nat
    decreases n,
{
    if n <= 0 {
        0
    } else {
        count_paid(ps, n - 1) + if is_paid_spec(ps[n - 1]) {
            1nat
        } else {
            0nat
        }
    }
}

/// Rows for the programs at the first `n` positions of `o`.
pub open spec fn rows_in_order(ps: Seq<Program>, o: Seq<usize>, n: int) -> Seq<char>
    decreases n,
{
    if n <= 0 {
        seq![]
    } else {
        rows_in_order(ps, o, n - 1) + row_spec(ps[o[n - 1] as int])
    }
}

/// Rows for the first `n` entries of `ps`, in their own order.
pub open spec fn rows_plain(ps: Seq<Program>, n: int) -> Seq<char>
    decreases n,
{
    if n <= 0 {
        seq![]
    } else {
        rows_plain(ps, n - 1) + row_spec(ps[n - 1])
    }
}

pub open spec fn total_spec(site: Site) -> nat {
    site.programs@.len() + site.competitions@.len()
}

pub open spec fn home_head_spec(site: Site) -> Seq<char> {
    "<div class=\"page-head\"><div class=\"wrap\">\n"@
        + "<h1>Open source programs and internships for 2026</h1>\n"@
        + "<p class=\"lede\">Every active mentorship, fellowship and competition worth applying to, with stipends and deadlines in one place. <strong>"@
        + decimal(count_paid(site.programs@, site.programs@.len() as int)) + " of "@ + decimal(
        total_spec(site),
    ) + " are paid.</strong></p>\n"@ + "</div></div>\n"@
}

pub open spec fn filter_bar_spec(site: Site) -> Seq<char> {
    "<div class=\"filters\"><div class=\"wrap\">\n"@ + "<div class=\"search\">"@ + icon::SEARCH@
        + "<label class=\"sr-only\" for=\"q\">Search programs</label><input id=\"q\" type=\"search\" placeholder=\"Search programs, organizations...\" data-search autocomplete=\"off\"></div>\n"@
        + "<div class=\"chips\" role=\"group\" aria-label=\"Filter by tag\">\n"@
        + "<button class=\"chip\" type=\"button\" data-tag=\"paid\" aria-pressed=\"false\">Paid</button>\n"@
        + "<button class=\"chip\" type=\"button\" data-tag=\"beginner-friendly\" aria-pressed=\"false\">Beginner friendly</button>\n"@
        + "<button class=\"chip\" type=\"button\" data-tag=\"students\" aria-pressed=\"false\">Students</button>\n"@
        + "<button class=\"chip\" type=\"button\" data-tag=\"global\" aria-pressed=\"false\">Open worldwide</button>\n"@
        + "</div>\n"@ + "<span class=\"result-count\" data-count>"@ + decimal(total_spec(site))
        + " programs</span>\n"@ + "</div></div>\n"@
        + "<p class=\"sr-only\" role=\"status\" aria-live=\"polite\" data-live></p>\n"@
}

/// Programs ordered by `stipend_order`, then the competitions as listed.
pub open spec fn home_list_spec(site: Site) -> Seq<char> {
    "<section class=\"section\" style=\"border-top:0;padding-top:26px\"><div class=\"wrap\">\n"@
        + "<ul class=\"list\" data-list>\n"@ + rows_in_order(
        site.programs@,
        stipend_order(site.programs@),
        site.programs@.len() as int,
    ) + rows_plain(site.competitions@, site.competitions@.len() as int) + "</ul>\n"@
        + "<div class=\"empty\" data-empty hidden>\n"@ + "<h2>No programs match</h2>\n"@
        + "<p>Try a different search term or clear the filters.</p>\n"@
        + "<button type=\"button\" data-reset>Clear filters</button>\n"@ + "</div>\n"@
        + "</div></section>\n"@
}

pub open spec fn home_body_spec(site: Site) -> Seq<char> {
    home_head_spec(site) + filter_bar_spec(site) + home_list_spec(site)
}

/// The programs and then the competitions, as one list.
pub open spec fn all_programs(site: Site) -> Seq<Program> {
    site.programs@ + site.competitions@
}

/// One `ListItem` of the structured data, at 1-based position `pos`.
pub open spec fn ld_item_spec(p: Program, pos: nat) -> Seq<char> {
    "{\"@type\":\"ListItem\",\"name\":"@ + json_string(p.name@) + ",\"position\":"@ + decimal(pos)
        + ",\"url\":"@ + json_string(p.url@) + "}"@
}

/// The first `n` items, comma separated.
pub open spec fn ld_items(ps: Seq<Program>, n: int) -> Seq<char>
    decreases n,
{
    if n <= 0 {
        seq![]
    } else if n == 1 {
        ld_item_spec(ps[0], 1)
    } else {
        ld_items(ps, n - 1) + ","@ + ld_item_spec(ps[n - 1], n as nat)
    }
}

/// The `ItemList` JSON-LD document, in serde_json's compact form with its
/// keys in sorted order.
///
/// This is the text that `serde_json::to_string` gives for the same
/// document built as a `serde_json::Value`: the object keys come out
/// sorted because serde_json's `Map` is a `BTreeMap` unless the crate's
/// `preserve_order` feature is on, and this crate does not turn that
/// feature on. The framing is verified code here because the `json!` macro
/// cannot stand in the library and no wrapper can serialize a value of the
/// library's own types; serde_json still writes every string in the
/// document (`json_quote`). With `preserve_order` switched on, a
/// `Value`-built document would keep its keys in the order written and no
/// longer match this one.
pub open spec fn json_ld_spec(site: Site) -> Seq<char> {
    "{\"@context\":\"https://schema.org\",\"@type\":\"ItemList\",\"itemListElement\":["@
        + ld_items(all_programs(site), all_programs(site).len() as int)
        + "],\"name\":\"Open source programs and internships 2026\"}"@
}

fn count_paid_exec(ps: &Vec<Program>) -> (r: usize)
    ensures
        r == count_paid(ps@, ps@.len() as int),
{
    let mut c: usize = 0;
    let mut i: usize = 0;
    while i < ps.len()
        invariant
            i <= ps.len(),
            c == count_paid(ps@, i as int),
            c <= i,
        decreases ps.len() - i,
    {
        if ps[i].is_paid() {
            c += 1;
        }
        i += 1;
    }
    c
}

fn home_head(site: &Site) -> (r: String)
    requires
        total_spec(*site) <= usize::MAX,
    ensures
        r@ == home_head_spec(*site),
{
    let paid = count_paid_exec(&site.programs);
    let total = site.programs.len() + site.competitions.len();
    let mut b = owned("<div class=\"page-head\"><div class=\"wrap\">\n");
    b.append("<h1>Open source programs and internships for 2026</h1>\n");
    b.append(
        "<p class=\"lede\">Every active mentorship, fellowship and competition worth applying to, with stipends and deadlines in one place. <strong>",
    );
    push_decimal(&mut b, paid as u64);
    b.append(" of ");
    push_decimal(&mut b, total as u64);
    b.append(" are paid.</strong></p>\n");
    b.append("</div></div>\n");
    b
}

fn filter_bar(site: &Site) -> (r: String)
    requires
        total_spec(*site) <= usize::MAX,
    ensures
        r@ == filter_bar_spec(*site),
{
    let total = site.programs.len() + site.competitions.len();
    let mut b = owned("<div class=\"filters\"><div class=\"wrap\">\n");
    b.append("<div class=\"search\">");
    b.append(icon::SEARCH);
    b.append(
        "<label class=\"sr-only\" for=\"q\">Search programs</label><input id=\"q\" type=\"search\" placeholder=\"Search programs, organizations...\" data-search autocomplete=\"off\"></div>\n",
    );
    b.append("<div class=\"chips\" role=\"group\" aria-label=\"Filter by tag\">\n");
    b.append(
        "<button class=\"chip\" type=\"button\" data-tag=\"paid\" aria-pressed=\"false\">Paid</button>\n",
    );
    b.append(
        "<button class=\"chip\" type=\"button\" data-tag=\"beginner-friendly\" aria-pressed=\"false\">Beginner friendly</button>\n",
    );
    b.append(
        "<button class=\"chip\" type=\"button\" data-tag=\"students\" aria-pressed=\"false\">Students</button>\n",
    );
    b.append(
        "<button class=\"chip\" type=\"button\" data-tag=\"global\" aria-pressed=\"false\">Open worldwide</button>\n",
    );
    b.append("</div>\n");
    b.append("<span class=\"result-count\" data-count>");
    push_decimal(&mut b, total as u64);
    b.append(" programs</span>\n");
    b.append("</div></div>\n");
    b.append("<p class=\"sr-only\" role=\"status\" aria-live=\"polite\" data-live></p>\n");
    b
}

fn ordered_rows(ps: &Vec<Program>) -> (r: String)
    ensures
        r@ == rows_in_order(ps@, stipend_order(ps@), ps@.len() as int),
{
    let order = order_by_stipend(ps);
    let mut s = String::new();
    let mut k: usize = 0;
    assert(s@ =~= rows_in_order(ps@, order@, 0));
    while k < order.len()
        invariant
            order@ == stipend_order(ps@),
            is_stipend_order(ps@, order@),
            k <= order.len(),
            s@ == rows_in_order(ps@, order@, k as int),
        decreases order.len() - k,
    {
        let idx = order[k];
        assert(order@[k as int] < ps@.len());
        s.append(program_row(&ps[idx]).as_str());
        k += 1;
    }
    s
}

fn plain_rows(ps: &Vec<Program>) -> (r: String)
    ensures
        r@ == rows_plain(ps@, ps@.len() as int),
{
    let mut s = String::new();
    let mut k: usize = 0;
    assert(s@ =~= rows_plain(ps@, 0));
    while k < ps.len()
        invariant
            k <= ps.len(),
            s@ == rows_plain(ps@, k as int),
        decreases ps.len() - k,
    {
        s.append(program_row(&ps[k]).as_str());
        k += 1;
    }
    s
}

fn home_list(site: &Site) -> (r: String)
    ensures
        r@ == home_list_spec(*site),
{
    let mut b = owned(
        "<section class=\"section\" style=\"border-top:0;padding-top:26px\"><div class=\"wrap\">\n",
    );
    b.append("<ul class=\"list\" data-list>\n");
    b.append(ordered_rows(&site.programs).as_str());
    b.append(plain_rows(&site.competitions).as_str());
    b.append("</ul>\n");
    b.append("<div class=\"empty\" data-empty hidden>\n");
    b.append("<h2>No programs match</h2>\n");
    b.append("<p>Try a different search term or clear the filters.</p>\n");
    b.append("<button type=\"button\" data-reset>Clear filters</button>\n");
    b.append("</div>\n");
    b.append("</div></section>\n");
    b
}

fn ld_item(p: &Program, pos: u64) -> (r: String)
    ensures
        r@ == ld_item_spec(*p, pos as nat),
{
    let mut s = owned("{\"@type\":\"ListItem\",\"name\":");
    s.append(json_quote(p.name.as_str()).as_str());
    s.append(",\"position\":");
    push_decimal(&mut s, pos);
    s.append(",\"url\":");
    s.append(json_quote(p.url.as_str()).as_str());
    s.append("}");
    s
}

/// ItemList structured data so search engines can surface individual programs.
fn home_json_ld(site: &Site) -> (r: String)
    requires
        total_spec(*site) <= usize::MAX,
    ensures
        r@ == json_ld_spec(*site),
{
    let np = site.programs.len();
    let total = np + site.competitions.len();
    let ghost all = all_programs(*site);
    let mut items = String::new();
    let mut k: usize = 0;
    assert(items@ =~= ld_items(all, 0));
    while k < total
        invariant
            np == site.programs.len(),
            total == np + site.competitions.len(),
            all == all_programs(*site),
            all.len() == total,
            k <= total,
            items@ == ld_items(all, k as int),
        decreases total - k,
    {
        let p = if k < np {
            &site.programs[k]
        } else {
            &site.competitions[k - np]
        };
        assert(*p == all[k as int]);
        if k > 0 {
            items.append(",");
        }
        items.append(ld_item(p, (k + 1) as u64).as_str());
        k += 1;
    }
    let mut s = owned(
        "{\"@context\":\"https://schema.org\",\"@type\":\"ItemList\",\"itemListElement\":[",
    );
    s.append(items.as_str());
    s.append("],\"name\":\"Open source programs and internships 2026\"}");
    s
}

/// The home page: paid count, filter bar, programs highest stipend first so
/// the most consequential options lead, then the competitions, plus
/// `ItemList` structured data.
pub fn home(site: &Site) -> (page: Page<'_>)
    requires
        total_spec(*site) <= usize::MAX,
    ensures
        page.title@ == site_page_title(0),
        page.description@ == site_page_description(0),
        page.path@ == site_page_path(0),
        page.nav@ == "programs"@,
        page.body@ == home_body_spec(*site),
        page.json_ld is Some,
        page.json_ld->0@ == json_ld_spec(*site),
{
    let mut b = home_head(site);
    b.append(filter_bar(site).as_str());
    b.append(home_list(site).as_str());
    Page {
        title: "Programs",
        description: "A curated list of active open source programs, internships and fellowships for 2026, with stipends, timelines and eligibility for GSoC, Outreachy, LFX, MLH and more.",
        path: "/",
        nav: "programs",
        body: b,
        json_ld: Some(home_json_ld(site)),
    }
}

// ---------------------------------------------------------------------------
// Every entry has its row.
// ---------------------------------------------------------------------------

proof fn lemma_rows_in_order_has_row(ps: Seq<Program>, o: Seq<usize>, n: int, k: int)
    requires
        0 <= k < n,
    ensures
        has_part(rows_in_order(ps, o, n), row_spec(ps[o[k] as int])),
    decreases n,
{
    if k == n - 1 {
        lemma_has_part_self(row_spec(ps[o[k] as int]));
    } else {
        lemma_rows_in_order_has_row(ps, o, n - 1, k);
    }
    lemma_has_part_concat(rows_in_order(ps, o, n - 1), row_spec(ps[o[n - 1] as int]), row_spec(ps[o[k] as int]));
}

proof fn lemma_rows_plain_has_row(ps: Seq<Program>, n: int, k: int)
    requires
        0 <= k < n,
    ensures
        has_part(rows_plain(ps, n), row_spec(ps[k])),
    decreases n,
{
    if k == n - 1 {
        lemma_has_part_self(row_spec(ps[k]));
    } else {
        lemma_rows_plain_has_row(ps, n - 1, k);
    }
    lemma_has_part_concat(rows_plain(ps, n - 1), row_spec(ps[n - 1]), row_spec(ps[k]));
}

proof fn lemma_lists_on_page(site: Site)
    ensures
        has_part(
            home_body_spec(site),
            rows_in_order(site.programs@, stipend_order(site.programs@), site.programs@.len() as int),
        ),
        has_part(
            home_body_spec(site),
            rows_plain(site.competitions@, site.competitions@.len() as int),
        ),
{
    let a = rows_in_order(site.programs@, stipend_order(site.programs@), site.programs@.len() as int);
    let b = rows_plain(site.competitions@, site.competitions@.len() as int);
    let list = home_list_spec(site);
    let head = "<section class=\"section\" style=\"border-top:0;padding-top:26px\"><div class=\"wrap\">\n"@
        + "<ul class=\"list\" data-list>\n"@;
    let tail = "</ul>\n"@ + "<div class=\"empty\" data-empty hidden>\n"@ + "<h2>No programs match</h2>\n"@
        + "<p>Try a different search term or clear the filters.</p>\n"@
        + "<button type=\"button\" data-reset>Clear filters</button>\n"@ + "</div>\n"@
        + "</div></section>\n"@;
    assert(list =~= head + a + (b + tail));
    lemma_has_part_middle(head, a, b + tail);
    assert(list =~= (head + a) + b + tail);
    lemma_has_part_middle(head + a, b, tail);
    let front = home_head_spec(site) + filter_bar_spec(site);
    assert(home_body_spec(site) == front + list);
    lemma_has_part_concat(front, list, a);
    lemma_has_part_concat(front, list, b);
}

/// Law: every program and every competition gets its row on the home
/// page, and with it the caveat warning of any entry that has one.
pub proof fn law_home_shows_every_entry(site: Site, i: int)
    requires
        total_spec(site) <= usize::MAX,
        0 <= i < all_programs(site).len(),
    ensures
        has_part(home_body_spec(site), row_spec(all_programs(site)[i])),
        all_programs(site)[i].caveat matches Some(c) ==> has_part(home_body_spec(site), caveat_para(c@)),
{
    let ps = site.programs@;
    let cs = site.competitions@;
    let body = home_body_spec(site);
    let p = all_programs(site)[i];
    lemma_lists_on_page(site);
    if i < ps.len() {
        law_home_order(ps);
        let o = stipend_order(ps);
        let x = i as usize;
        assert(o.contains(x));
        let k = choose|k: int| 0 <= k < o.len() && o[k] == x;
        lemma_rows_in_order_has_row(ps, o, ps.len() as int, k);
        assert(p == ps[i]);
        lemma_has_part_trans(body, rows_in_order(ps, o, ps.len() as int), row_spec(p));
    } else {
        assert(p == cs[i - ps.len()]);
        lemma_rows_plain_has_row(cs, cs.len() as int, i - ps.len());
        lemma_has_part_trans(body, rows_plain(cs, cs.len() as int), row_spec(p));
    }
    law_row_shows_fields(p);
    if let Some(c) = p.caveat {
        lemma_has_part_trans(body, row_spec(p), caveat_para(c@));
    }
}

} // verus!
