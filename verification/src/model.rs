//! Data model mirroring the YAML files in `data/`.
//!
//! Every field the YAML may omit is an `Option` or defaults to empty, so a
//! sparse entry (a newly announced program with nothing but a name and a link)
//! still loads. Validation of what is *semantically* required happens in
//! `validate`, not here, so the error message can name the offending entry.
use vstd::prelude::*;
use vstd::string::*;

use crate::strings::{chars_vec, decimal, lemma_decimal_digits, owned, push_char, push_range, same_text, to_decimal};

verus! {

#[derive(Debug)]
pub struct Stipend {
    pub min: Option<u64>,
    pub max: Option<u64>,
    pub currency: Option<String>,
    pub note: Option<String>,
    pub unpaid: bool,
}

#[derive(Debug)]
pub struct Program {
    pub name: String,
    pub short_name: Option<String>,
    pub url: String,
    pub org: String,
    pub timeline: Option<String>,
    /// Year the `timeline` string describes. Not rendered directly (the
    /// timeline text already spells out dates), but kept so the YAML can
    /// record which cycle a date belongs to for future filtering.
    pub timeline_year: Option<u32>,
    pub stipend: Option<Stipend>,
    pub eligibility: Option<String>,
    /// Shown as an inline warning on the card.
    pub caveat: Option<String>,
    pub tags: Vec<String>,
    /// Competitions carry rewards instead of a stipend.
    pub rewards: Option<String>,
}

#[derive(Debug)]
pub struct TimelineEvent {
    pub month: u32,
    pub date: String,
    pub event: String,
    pub program: Option<String>,
    pub time: Option<String>,
    pub approx: bool,
}

#[derive(Debug)]
pub struct Timeline {
    pub year: u32,
    pub events: Vec<TimelineEvent>,
}

#[derive(Debug)]
pub struct ResourceLink {
    pub name: String,
    pub url: String,
    pub description: Option<String>,
}

#[derive(Debug)]
pub struct ResourceSection {
    pub section: String,
    pub slug: String,
    pub items: Vec<ResourceLink>,
}

#[derive(Debug)]
pub struct BeginnerPick {
    pub program: String,
    pub why: String,
    pub getting_started: String,
}

#[derive(Debug)]
pub struct LanguageGuide {
    pub name: String,
    pub repos: Vec<ResourceLink>,
    pub note: Option<String>,
    pub labels: Vec<String>,
}

#[derive(Debug)]
pub struct NonCode {
    pub kind: String,
    pub description: String,
    pub links: Vec<ResourceLink>,
}

#[derive(Debug)]
pub struct LearningStep {
    pub weeks: String,
    pub goal: String,
}

#[derive(Debug)]
pub struct LabelHint {
    pub label: String,
    pub meaning: String,
}

#[derive(Debug)]
pub struct Guide {
    pub best_for_beginners: Vec<BeginnerPick>,
    pub languages: Vec<LanguageGuide>,
    pub non_code: Vec<NonCode>,
    pub learning_path: Vec<LearningStep>,
    pub labels: Vec<LabelHint>,
}

/// Everything the site is built from, loaded once.
pub struct Site {
    pub programs: Vec<Program>,
    pub competitions: Vec<Program>,
    pub timeline: Timeline,
    pub resources: Vec<ResourceSection>,
    pub guide: Guide,
}

// ---------------------------------------------------------------------------
// Digit grouping.
// ---------------------------------------------------------------------------

/// Western grouping of a digit string: a comma before every third digit
/// counted from the right (`1234567` -> `1,234,567`).
pub open spec fn group_western(d: Seq<char>) -> Seq<char>
    decreases d.len(),
{
    if d.len() <= 3 {
        d
    } else {
        group_western(d.take(d.len() - 3)) + seq![','] + d.skip(d.len() - 3)
    }
}

/// Pairs from the right: `12345` -> `1,23,45`.
pub open spec fn group_pairs(d: Seq<char>) -> Seq<char>
    decreases d.len(),
{
    if d.len() <= 2 {
        d
    } else {
        group_pairs(d.take(d.len() - 2)) + seq![','] + d.skip(d.len() - 2)
    }
}

/// Indian grouping: the last three digits, then groups of two
/// (`10000000` -> `1,00,00,000`).
pub open spec fn group_indian(d: Seq<char>) -> Seq<char> {
    if d.len() <= 3 {
        d
    } else {
        group_pairs(d.take(d.len() - 3)) + seq![','] + d.skip(d.len() - 3)
    }
}

/// `n` written in decimal and grouped the Indian or the western way.
pub open spec fn grouped(n: nat, indian: bool) -> Seq<char> {
    if indian {
        group_indian(decimal(n))
    } else {
        group_western(decimal(n))
    }
}

fn push_western(out: &mut String, d: &Vec<char>, end: usize)
    requires
        end <= d.len(),
    ensures
        final(out)@ == old(out)@ + group_western(d@.take(end as int)),
    decreases end,
{
    let ghost t = d@.take(end as int);
    if end <= 3 {
        push_range(out, d, 0, end);
        assert(d@.subrange(0, end as int) =~= t);
    } else {
        push_western(out, d, end - 3);
        push_char(out, ',');
        push_range(out, d, end - 3, end);
        assert(t.take(t.len() - 3) =~= d@.take(end - 3));
        assert(t.skip(t.len() - 3) =~= d@.subrange(end - 3, end as int));
        assert(final(out)@ =~= old(out)@ + group_western(t));
    }
}

fn push_pairs(out: &mut String, d: &Vec<char>, end: usize)
    requires
        end <= d.len(),
    ensures
        final(out)@ == old(out)@ + group_pairs(d@.take(end as int)),
    decreases end,
{
    let ghost t = d@.take(end as int);
    if end <= 2 {
        push_range(out, d, 0, end);
        assert(d@.subrange(0, end as int) =~= t);
    } else {
        push_pairs(out, d, end - 2);
        push_char(out, ',');
        push_range(out, d, end - 2, end);
        assert(t.take(t.len() - 2) =~= d@.take(end - 2));
        assert(t.skip(t.len() - 2) =~= d@.subrange(end - 2, end as int));
        assert(final(out)@ =~= old(out)@ + group_pairs(t));
    }
}

/// Digit grouping. Indian numbering (1,00,000) differs from western (100,000),
/// and showing ₹100,000 to an audience that reads lakhs looks wrong.
fn group(n: u64, indian: bool) -> (r: String)
    ensures
        r@ == grouped(n as nat, indian),
{
    let s = to_decimal(n);
    let d = chars_vec(s.as_str());
    let len = d.len();
    assert(d@.take(len as int) =~= d@);
    let mut out = String::new();
    if !indian {
        push_western(&mut out, &d, len);
    } else if len <= 3 {
        push_range(&mut out, &d, 0, len);
        assert(d@.subrange(0, len as int) =~= d@);
    } else {
        push_pairs(&mut out, &d, len - 3);
        push_char(&mut out, ',');
        push_range(&mut out, &d, len - 3, len);
        assert(d@.skip(len - 3) =~= d@.subrange(len - 3, len as int));
    }
    assert(out@ =~= grouped(n as nat, indian));
    out
}

// ---------------------------------------------------------------------------
// Stipend.
// ---------------------------------------------------------------------------

pub open spec fn currency_is(s: Stipend, code: Seq<char>) -> bool {
    match s.currency {
        Some(c) => c@ == code,
        None => false,
    }
}

pub open spec fn is_inr_spec(s: Stipend) -> bool {
    currency_is(s, "INR"@)
}

/// The currency sign: rupee for INR, euro for EUR, dollar otherwise.
pub open spec fn symbol_spec(s: Stipend) -> Seq<char> {
    if currency_is(s, "INR"@) {
        "₹"@
    } else if currency_is(s, "EUR"@) {
        "€"@
    } else {
        "$"@
    }
}

/// What `Stipend::display` shows: `sym lo` when both bounds are set and
/// equal, `sym lo - sym hi` when they differ; otherwise the note, or
/// `Unpaid` / `Varies`.
pub open spec fn display_spec(s: Stipend) -> Seq<char> {
    match (s.min, s.max) {
        (Some(lo), Some(hi)) => {
            let sym = symbol_spec(s);
            if lo == hi {
                sym + grouped(lo as nat, is_inr_spec(s))
            } else {
                sym + grouped(lo as nat, is_inr_spec(s)) + " - "@ + sym + grouped(
                    hi as nat,
                    is_inr_spec(s),
                )
            }
        },
        _ => match s.note {
            Some(n) => n@,
            None => if s.unpaid {
                "Unpaid"@
            } else {
                "Varies"@
            },
        },
    }
}

pub open spec fn has_amount_spec(s: Stipend) -> bool {
    s.min is Some && s.max is Some
}

/// The note, when the amount already used the numbers.
pub open spec fn sub_note_spec(s: Stipend) -> Option<Seq<char>> {
    if has_amount_spec(s) {
        match s.note {
            Some(n) => Some(n@),
            None => None,
        }
    } else {
        None
    }
}

/// Sort key: `max`, else `min`, else 0; INR divided by 84.
pub open spec fn sort_value_spec(s: Stipend) -> u64 {
    let raw: u64 = match s.max {
        Some(hi) => hi,
        None => match s.min {
            Some(lo) => lo,
            None => 0,
        },
    };
    if is_inr_spec(s) {
        (raw / 84) as u64
    } else {
        raw
    }
}

impl Stipend {
    /// Human-readable amount, e.g. "$1,500 - $6,600" or "₹1,00,000".
    /// Falls back to `note` when there is no numeric range to show.
    pub fn display(&self) -> (r: String)
        ensures
            r@ == display_spec(*self),
    {
        match (self.min, self.max) {
            (Some(lo), Some(hi)) => {
                let sym = self.symbol();
                let inr = self.is_inr();
                let mut out = owned(sym);
                let g = group(lo, inr);
                out.append(g.as_str());
                if lo != hi {
                    out.append(" - ");
                    out.append(sym);
                    let g2 = group(hi, inr);
                    out.append(g2.as_str());
                }
                out
            },
            _ => match &self.note {
                Some(n) => n.clone(),
                None => if self.unpaid {
                    owned("Unpaid")
                } else {
                    owned("Varies")
                },
            },
        }
    }

    /// True when `display()` returns a real currency amount rather than prose.
    pub fn has_amount(&self) -> (r: bool)
        ensures
            r == has_amount_spec(*self),
    {
        self.min.is_some() && self.max.is_some()
    }

    /// Secondary line shown under the amount: the note when the amount already
    /// used the numbers, nothing when the note *was* the amount.
    pub fn sub_note(&self) -> (r: Option<&str>)
        ensures
            match r {
                Some(t) => sub_note_spec(*self) == Some(t@),
                None => sub_note_spec(*self) is None,
            },
    {
        if self.min.is_some() && self.max.is_some() {
            match &self.note {
                Some(n) => Some(n.as_str()),
                None => None,
            }
        } else {
            None
        }
    }

    fn currency_matches(&self, code: &str) -> (r: bool)
        ensures
            r == currency_is(*self, code@),
    {
        match &self.currency {
            Some(c) => same_text(c.as_str(), code),
            None => false,
        }
    }

    fn is_inr(&self) -> (r: bool)
        ensures
            r == is_inr_spec(*self),
    {
        self.currency_matches("INR")
    }

    fn symbol(&self) -> (r: &'static str)
        ensures
            r@ == symbol_spec(*self),
    {
        if self.currency_matches("INR") {
            "₹"
        } else if self.currency_matches("EUR") {
            "€"
        } else {
            "$"
        }
    }

    /// Sort key for "highest paying first". Unpaid and unknown sink to the
    /// bottom. INR is converted at a deliberately rough rate purely for
    /// ordering; it is never displayed.
    pub fn sort_value(&self) -> (r: u64)
        ensures
            r == sort_value_spec(*self),
    {
        let raw = match self.max {
            Some(hi) => hi,
            None => match self.min {
                Some(lo) => lo,
                None => 0,
            },
        };
        if self.is_inr() {
            raw / 84
        } else {
            raw
        }
    }
}

// ---------------------------------------------------------------------------
// Program.
// ---------------------------------------------------------------------------

pub open spec fn has_tag(p: Program, tag: Seq<char>) -> bool {
    exists|i: int| 0 <= i < p.tags@.len() && (#[trigger] p.tags@[i])@ == tag
}

pub open spec fn is_paid_spec(p: Program) -> bool {
    has_tag(p, "paid"@)
}

pub open spec fn stipend_sort_spec(p: Program) -> u64 {
    match p.stipend {
        Some(s) => sort_value_spec(s),
        None => 0,
    }
}

/// Whether some tag of `tags` reads `tag`.
pub fn tags_contain(tags: &Vec<String>, tag: &str) -> (r: bool)
    ensures
        r == exists|i: int| 0 <= i < tags@.len() && (#[trigger] tags@[i])@ == tag@,
{
    let mut i: usize = 0;
    while i < tags.len()
        invariant
            i <= tags.len(),
            forall|k: int| 0 <= k < i ==> (#[trigger] tags@[k])@ != tag@,
        decreases tags.len() - i,
    {
        if same_text(tags[i].as_str(), tag) {
            return true;
        }
        i += 1;
    }
    false
}

impl Program {
    pub fn display_name(&self) -> (r: &str)
        ensures
            r@ == self.name@,
    {
        self.name.as_str()
    }

    pub fn is_paid(&self) -> (r: bool)
        ensures
            r == is_paid_spec(*self),
    {
        tags_contain(&self.tags, "paid")
    }

    pub fn stipend_sort(&self) -> (r: u64)
        ensures
            r == stipend_sort_spec(*self),
    {
        match &self.stipend {
            Some(s) => s.sort_value(),
            None => 0,
        }
    }
}

} // verus!

verus! {

// ---------------------------------------------------------------------------
// Laws.
// ---------------------------------------------------------------------------

proof fn lemma_no_commas_in_decimal(n: nat)
    ensures
        decimal(n).filter(|c: char| c != ',') == decimal(n),
    decreases n,
{
    reveal(Seq::filter);
    let d = decimal(n);
    let f = |c: char| c != ',';
    lemma_decimal_digits(n);
    assert(d.last() != ',');
    if n >= 10 {
        lemma_no_commas_in_decimal(n / 10);
        assert(d.drop_last() =~= decimal(n / 10));
    } else {
        assert(d.drop_last() =~= Seq::<char>::empty());
        assert(d.drop_last().filter(f) =~= d.drop_last());
    }
    assert(d.filter(f) == d.drop_last().filter(f).push(d.last()));
    assert(d.drop_last().push(d.last()) =~= d);
}

proof fn lemma_western_filter(d: Seq<char>)
    ensures
        group_western(d).filter(|c: char| c != ',') == d.filter(|c: char| c != ','),
    decreases d.len(),
{
    broadcast use Seq::filter_distributes_over_add;

    if d.len() > 3 {
        let f = |c: char| c != ',';
        lemma_western_filter(d.take(d.len() - 3));
        assert(seq![','].filter(f) =~= Seq::<char>::empty()) by {
            reveal_with_fuel(Seq::filter, 2);
        }
        assert(d =~= d.take(d.len() - 3) + d.skip(d.len() - 3));
    }
}

proof fn lemma_pairs_filter(d: Seq<char>)
    ensures
        group_pairs(d).filter(|c: char| c != ',') == d.filter(|c: char| c != ','),
    decreases d.len(),
{
    broadcast use Seq::filter_distributes_over_add;

    if d.len() > 2 {
        let f = |c: char| c != ',';
        lemma_pairs_filter(d.take(d.len() - 2));
        assert(seq![','].filter(f) =~= Seq::<char>::empty()) by {
            reveal_with_fuel(Seq::filter, 2);
        }
        assert(d =~= d.take(d.len() - 2) + d.skip(d.len() - 2));
    }
}

/// Law: grouping only inserts separators. Dropping the commas from a
/// grouped amount gives back the plain decimal digits, in either numbering.
pub proof fn law_grouping_keeps_digits(n: nat, indian: bool)
    ensures
        grouped(n, indian).filter(|c: char| c != ',') == decimal(n),
{
    broadcast use Seq::filter_distributes_over_add;

    let d = decimal(n);
    lemma_no_commas_in_decimal(n);
    if indian {
        if d.len() > 3 {
            let f = |c: char| c != ',';
            lemma_pairs_filter(d.take(d.len() - 3));
            assert(seq![','].filter(f) =~= Seq::<char>::empty()) by {
                reveal_with_fuel(Seq::filter, 2);
            }
            assert(d =~= d.take(d.len() - 3) + d.skip(d.len() - 3));
        }
    } else {
        lemma_western_filter(d);
    }
}

/// Law: a stipend note is shown exactly once. When the amount is shown, the
/// note is the secondary line; when it is not, the note is the amount and
/// there is no secondary line.
pub proof fn law_note_shown_once(s: Stipend)
    ensures
        s.note is Some ==> (if has_amount_spec(s) {
            sub_note_spec(s) == Some(s.note->0@)
        } else {
            display_spec(s) == s.note->0@ && sub_note_spec(s) is None
        }),
        s.note is None ==> sub_note_spec(s) is None,
{
}

/// Law: `has_amount` tells a figure from prose. With both bounds set,
/// `display` starts with the currency sign; otherwise it is the note, or
/// "Unpaid" / "Varies".
pub proof fn law_amount_or_prose(s: Stipend)
    ensures
        has_amount_spec(s) ==> symbol_spec(s).is_prefix_of(display_spec(s)),
        !has_amount_spec(s) ==> display_spec(s) == match s.note {
            Some(n) => n@,
            None => if s.unpaid {
                "Unpaid"@
            } else {
                "Varies"@
            },
        },
{
    if has_amount_spec(s) {
        let sym = symbol_spec(s);
        let d = display_spec(s);
        assert(d.subrange(0, sym.len() as int) =~= sym);
    }
}

/// Law: unpaid and unknown stipends sink to the bottom. A stipend with
/// neither bound has the smallest sort key, 0.
pub proof fn law_no_amount_sorts_last(s: Stipend)
    ensures
        s.min is None && s.max is None ==> sort_value_spec(s) == 0,
{
}

} // verus!

verus! {

proof fn lemma_decimal_short(n: nat)
    ensures
        n < 10 ==> decimal(n).len() == 1,
        10 <= n < 100 ==> decimal(n).len() == 2,
        100 <= n < 1000 ==> decimal(n).len() == 3,
        n >= 1000 ==> decimal(n).len() >= 4,
    decreases n,
{
    if n >= 10 {
        lemma_decimal_short(n / 10);
    }
}

proof fn lemma_western_commas(d: Seq<char>)
    requires
        d.len() >= 1,
        forall|i: int| 0 <= i < d.len() ==> #[trigger] d[i] != ',',
    ensures
        group_western(d).len() % 4 != 0,
        forall|i: int|
            0 <= i < group_western(d).len() ==> (#[trigger] group_western(d)[i] == ',' <==> (
            group_western(d).len() - i) % 4 == 0),
    decreases d.len(),
{
    if d.len() > 3 {
        let h = d.take(d.len() - 3);
        lemma_western_commas(h);
        let p = group_western(h);
        let g = group_western(d);
        let t = d.skip(d.len() - 3);
        assert(g == p + seq![','] + t);
        assert forall|i: int| 0 <= i < g.len() implies (#[trigger] g[i] == ',' <==> (g.len() - i) % 4
            == 0) by {
            if i < p.len() {
                assert(g[i] == p[i]);
            } else if i == p.len() {
            } else {
                assert(g[i] == t[i - p.len() - 1]);
            }
        }
    }
}

proof fn lemma_pairs_commas(d: Seq<char>)
    requires
        d.len() >= 1,
        forall|i: int| 0 <= i < d.len() ==> #[trigger] d[i] != ',',
    ensures
        group_pairs(d).len() % 3 != 0,
        forall|i: int|
            0 <= i < group_pairs(d).len() ==> (#[trigger] group_pairs(d)[i] == ',' <==> (
            group_pairs(d).len() - i) % 3 == 0),
    decreases d.len(),
{
    if d.len() > 2 {
        let h = d.take(d.len() - 2);
        lemma_pairs_commas(h);
        let p = group_pairs(h);
        let g = group_pairs(d);
        let t = d.skip(d.len() - 2);
        assert(g == p + seq![','] + t);
        assert forall|i: int| 0 <= i < g.len() implies (#[trigger] g[i] == ',' <==> (g.len() - i) % 3
            == 0) by {
            if i < p.len() {
                assert(g[i] == p[i]);
            } else if i == p.len() {
            } else {
                assert(g[i] == t[i - p.len() - 1]);
            }
        }
    }
}

/// Law: western grouping puts a comma before every third digit from the
/// right and nowhere else. The commas sit exactly where the distance to the
/// end is a multiple of four, so every group after the first has three
/// digits and the first has one to three; there is a comma at all exactly
/// when `n` is at least 1000.
pub proof fn law_western_group_sizes(n: nat)
    ensures
        grouped(n, false).len() % 4 != 0,
        forall|i: int|
            0 <= i < grouped(n, false).len() ==> (#[trigger] grouped(n, false)[i] == ',' <==> (
            grouped(n, false).len() - i) % 4 == 0),
        grouped(n, false).contains(',') <==> n >= 1000,
{
    let d = decimal(n);
    lemma_decimal_digits(n);
    lemma_decimal_short(n);
    lemma_western_commas(d);
    let g = grouped(n, false);
    if n >= 1000 {
        assert(g[g.len() - 4] == ',');
    } else {
        assert(g == d);
    }
}

/// Law: Indian grouping ends in a group of three digits and groups the rest
/// in twos. With more than three digits there is a comma four places from
/// the end, and before it commas exactly where the distance to that comma is
/// a multiple of three, so the first group has one or two digits; there is a
/// comma at all exactly when `n` is at least 1000.
pub proof fn law_indian_group_sizes(n: nat)
    ensures
        n < 1000 ==> grouped(n, true) == decimal(n),
        n >= 1000 ==> ({
            let g = grouped(n, true);
            &&& g.len() >= 5
            &&& g[g.len() - 4] == ','
            &&& (g.len() - 4) % 3 != 0
            &&& forall|i: int| 0 <= i < g.len() - 4 ==> (#[trigger] g[i] == ',' <==> (g.len() - 4 - i) % 3 == 0)
            &&& forall|i: int| g.len() - 4 < i < g.len() ==> #[trigger] g[i] != ','
        }),
        grouped(n, true).contains(',') <==> n >= 1000,
{
    let d = decimal(n);
    lemma_decimal_digits(n);
    lemma_decimal_short(n);
    let g = grouped(n, true);
    if n >= 1000 {
        let h = d.take(d.len() - 3);
        lemma_pairs_commas(h);
        let p = group_pairs(h);
        let t = d.skip(d.len() - 3);
        assert(g == p + seq![','] + t);
        assert(g[g.len() - 4] == ',');
        assert forall|i: int| 0 <= i < g.len() - 4 implies (#[trigger] g[i] == ',' <==> (g.len() - 4
            - i) % 3 == 0) by {
            assert(g[i] == p[i]);
        }
        assert forall|i: int| g.len() - 4 < i < g.len() implies #[trigger] g[i] != ',' by {
            assert(g[i] == t[i - p.len() - 1]);
        }
    } else {
        assert(g == d);
    }
}

} // verus!
