//! Build-time checks on the YAML data.
//!
//! This repo takes drive-by PRs adding a program, so the generator is the last
//! place a typo can be caught before it reaches the site. Errors fail the
//! build; warnings print and continue. The rule of thumb: anything that would
//! render as visibly broken or misleading is an error, anything merely
//! incomplete is a warning.
use vstd::prelude::*;
use vstd::string::*;

use crate::model::{
    has_tag, is_paid_spec, tags_contain, BeginnerPick, Program, ResourceSection, Site, Stipend,
    TimelineEvent,
};
use crate::render::home::all_programs;
use crate::strings::{
    blank, decimal, is_blank, lowercase_text, owned, push_decimal, same_text, starts_with, to_lower,
};

verus! {

pub struct Report {
    pub errors: Vec<String>,
    pub warnings: Vec<String>,
}

/// The texts of a list of messages.
pub open spec fn texts(v: Seq<String>) -> Seq<Seq<char>> {
    v.map_values(|m: String| m@)
}

/// `msg` when `cond` holds, nothing otherwise.
pub open spec fn msg_if(cond: bool, msg: Seq<char>) -> Seq<Seq<char>> {
    if cond {
        seq![msg]
    } else {
        seq![]
    }
}

/// `f` applied to each of the first `n` items, the resulting lists joined.
pub open spec fn concat_msgs<T>(xs: Seq<T>, f: spec_fn(T) -> Seq<Seq<char>>, n: int) -> Seq<Seq<char>>
    decreases n,
{
    if n <= 0 {
        seq![]
    } else {
        concat_msgs(xs, f, n - 1) + f(xs[n - 1])
    }
}

// ---------------------------------------------------------------------------
// Duplicates.
// ---------------------------------------------------------------------------

/// How many of the first `n` entries of `keys` equal `k`.
pub open spec fn count_key(keys: Seq<Seq<char>>, k: Seq<char>, n: int) -> nat
    decreases n,
{
    if n <= 0 {
        0
    } else {
        count_key(keys, k, n - 1) + if keys[n - 1] == k {
            1nat
        } else {
            0nat
        }
    }
}

/// Whether entry `i` is the first with its value.
pub open spec fn first_of_kind(keys: Seq<Seq<char>>, i: int) -> bool {
    forall|j: int| 0 <= j < i ==> keys[j] != keys[i]
}

/// Whether entry `i` is the first of a value that occurs more than once.
pub open spec fn first_of_repeated(keys: Seq<Seq<char>>, i: int) -> bool {
    first_of_kind(keys, i) && count_key(keys, keys[i], keys.len() as int) > 1
}

/// One entry per repeated value, at its first occurrence among the first
/// `n`; `msg` says how it is reported.
pub open spec fn repeats(keys: Seq<Seq<char>>, msg: spec_fn(Seq<char>, nat) -> Seq<char>, n: int) -> Seq<Seq<char>>
    decreases n,
{
    if n <= 0 {
        seq![]
    } else {
        repeats(keys, msg, n - 1) + msg_if(
            first_of_repeated(keys, n - 1),
            msg(keys[n - 1], count_key(keys, keys[n - 1], keys.len() as int)),
        )
    }
}

pub open spec fn dup_name_msg(name: Seq<char>, count: nat) -> Seq<char> {
    "duplicate program name \""@ + name + "\" appears "@ + decimal(count) + " times"@
}

pub open spec fn dup_slug_msg(slug: Seq<char>, count: nat) -> Seq<char> {
    "duplicate resource section slug \""@ + slug + "\""@
}

/// Duplicate names are compared lowercased.
pub open spec fn name_keys(all: Seq<Program>) -> Seq<Seq<char>> {
    all.map_values(|p: Program| lowercase_text(p.name@))
}

pub open spec fn slug_keys(secs: Seq<ResourceSection>) -> Seq<Seq<char>> {
    secs.map_values(|s: ResourceSection| s.slug@)
}

// ---------------------------------------------------------------------------
// Per-program rules.
// ---------------------------------------------------------------------------

pub open spec fn has_range(s: Stipend) -> bool {
    s.min is Some || s.max is Some
}

pub open spec fn absolute_url(u: Seq<char>) -> bool {
    "https://"@.is_prefix_of(u) || "http://"@.is_prefix_of(u)
}

pub open spec fn stipend_errors(p: Program) -> Seq<Seq<char>> {
    match p.stipend {
        Some(s) => msg_if(
            s.min is Some && s.max is Some && s.min->0 > s.max->0,
            p.name@ + ": stipend min "@ + decimal(s.min->0 as nat) + " exceeds max "@ + decimal(
                s.max->0 as nat,
            ),
        ) + msg_if(
            has_range(s) && s.currency is None,
            p.name@ + ": stipend has an amount but no currency"@,
        ) + msg_if(
            s.unpaid && has_range(s),
            p.name@ + ": stipend marked unpaid but carries an amount"@,
        ),
        None => seq![],
    }
}

/// Errors about one program: empty name, relative URL, paid and unpaid
/// together, and the stipend's inconsistencies.
pub open spec fn program_errors(p: Program) -> Seq<Seq<char>> {
    msg_if(blank(p.name@), "a program has an empty name"@) + msg_if(
        !absolute_url(p.url@),
        p.name@ + ": url must be absolute, got \""@ + p.url@ + "\""@,
    ) + msg_if(
        is_paid_spec(p) && has_tag(p, "unpaid"@),
        p.name@ + ": tagged both paid and unpaid"@,
    ) + stipend_errors(p)
}

/// Warnings about one program: what is merely missing.
pub open spec fn program_warnings(p: Program) -> Seq<Seq<char>> {
    msg_if(blank(p.org@), p.name@ + ": no org set"@) + msg_if(
        p.timeline is None,
        p.name@ + ": no timeline set"@,
    ) + msg_if(p.eligibility is None, p.name@ + ": no eligibility set"@) + msg_if(
        is_paid_spec(p) && p.stipend is None && p.rewards is None,
        p.name@ + ": tagged paid but has no stipend block"@,
    )
}

// ---------------------------------------------------------------------------
// Cross references.
// ---------------------------------------------------------------------------

/// The lowercased names and short names of the first `n` programs.
pub open spec fn known_names(all: Seq<Program>, n: int) -> Seq<Seq<char>>
    decreases n,
{
    if n <= 0 {
        seq![]
    } else {
        known_names(all, n - 1) + seq![lowercase_text(all[n - 1].name@)] + match all[n - 1].short_name {
            Some(s) => seq![lowercase_text(s@)],
            None => seq![],
        }
    }
}

/// Whether a reference names some program, by name or short name, compared
/// lowercased.
pub open spec fn known(all: Seq<Program>, name: Seq<char>) -> bool {
    known_names(all, all.len() as int).contains(lowercase_text(name))
}

pub open spec fn month_errors(e: TimelineEvent) -> Seq<Seq<char>> {
    msg_if(
        !(1 <= e.month <= 12),
        "timeline event \""@ + e.event@ + "\" has month "@ + decimal(e.month as nat)
            + ", expected 1-12"@,
    )
}

pub open spec fn event_warnings(all: Seq<Program>, e: TimelineEvent) -> Seq<Seq<char>> {
    match e.program {
        Some(prog) => msg_if(
            !known(all, prog@),
            "timeline event \""@ + e.event@ + "\" references unknown program \""@ + prog@ + "\""@,
        ),
        None => seq![],
    }
}

pub open spec fn pick_warnings(all: Seq<Program>, pick: BeginnerPick) -> Seq<Seq<char>> {
    msg_if(
        !known(all, pick.program@),
        "guide.best_for_beginners references unknown program \""@ + pick.program@ + "\""@,
    )
}

// ---------------------------------------------------------------------------
// The report.
// ---------------------------------------------------------------------------

pub open spec fn errors_spec(site: Site) -> Seq<Seq<char>> {
    let all = all_programs(site);
    let keys = name_keys(all);
    let skeys = slug_keys(site.resources@);
    repeats(keys, |k: Seq<char>, c: nat| dup_name_msg(k, c), keys.len() as int) + concat_msgs(
        all,
        |p: Program| program_errors(p),
        all.len() as int,
    ) + concat_msgs(
        site.timeline.events@,
        |e: TimelineEvent| month_errors(e),
        site.timeline.events@.len() as int,
    ) + repeats(skeys, |k: Seq<char>, c: nat| dup_slug_msg(k, c), skeys.len() as int)
}

pub open spec fn warnings_spec(site: Site) -> Seq<Seq<char>> {
    let all = all_programs(site);
    concat_msgs(all, |p: Program| program_warnings(p), all.len() as int) + concat_msgs(
        site.timeline.events@,
        |e: TimelineEvent| event_warnings(all, e),
        site.timeline.events@.len() as int,
    ) + concat_msgs(
        site.guide.best_for_beginners@,
        |pk: BeginnerPick| pick_warnings(all, pk),
        site.guide.best_for_beginners@.len() as int,
    )
}

// ---------------------------------------------------------------------------
// Executable checks.
// ---------------------------------------------------------------------------

fn push_msg(out: &mut Vec<String>, m: String)
    ensures
        texts(final(out)@) == texts(old(out)@) + seq![m@],
{
    out.push(m);
    assert(texts(final(out)@) =~= texts(old(out)@) + seq![m@]);
}

impl Report {
    fn err(&mut self, msg: String)
        ensures
            texts(final(self).errors@) == texts(old(self).errors@) + seq![msg@],
            final(self).warnings == old(self).warnings,
    {
        push_msg(&mut self.errors, msg);
    }

    fn warn(&mut self, msg: String)
        ensures
            texts(final(self).warnings@) == texts(old(self).warnings@) + seq![msg@],
            final(self).errors == old(self).errors,
    {
        push_msg(&mut self.warnings, msg);
    }
}

fn with_name(name: &str, rest: &str) -> (r: String)
    ensures
        r@ == name@ + rest@,
{
    let mut s = owned(name);
    s.append(rest);
    s
}

fn count_text(keys: &Vec<String>, k: &str) -> (r: usize)
    ensures
        r == count_key(texts(keys@), k@, keys@.len() as int),
{
    let mut c: usize = 0;
    let mut i: usize = 0;
    while i < keys.len()
        invariant
            i <= keys.len(),
            c <= i,
            c == count_key(texts(keys@), k@, i as int),
        decreases keys.len() - i,
    {
        if same_text(keys[i].as_str(), k) {
            c += 1;
        }
        i += 1;
    }
    c
}

fn is_first_of_kind(keys: &Vec<String>, i: usize) -> (r: bool)
    requires
        i < keys.len(),
    ensures
        r == first_of_kind(texts(keys@), i as int),
{
    let mut j: usize = 0;
    while j < i
        invariant
            i < keys.len(),
            j <= i,
            forall|k: int| 0 <= k < j ==> texts(keys@)[k] != texts(keys@)[i as int],
        decreases i - j,
    {
        if same_text(keys[j].as_str(), keys[i].as_str()) {
            assert(texts(keys@)[j as int] == texts(keys@)[i as int]);
            return false;
        }
        j += 1;
    }
    true
}

fn contains_text(v: &Vec<String>, k: &str) -> (r: bool)
    ensures
        r == texts(v@).contains(k@),
{
    let mut i: usize = 0;
    while i < v.len()
        invariant
            i <= v.len(),
            forall|j: int| 0 <= j < i ==> texts(v@)[j] != k@,
        decreases v.len() - i,
    {
        if same_text(v[i].as_str(), k) {
            assert(texts(v@)[i as int] == k@);
            return true;
        }
        i += 1;
    }
    false
}

/// Pushes one message per value that occurs more than once in `keys`, at
/// its first occurrence, as the name check and the slug check report them.
///
/// The counting is a scan of a `Vec` rather than a `HashMap` keyed by the
/// name, for two reasons. vstd specifies `HashMap` over keys whose view is
/// the key itself and proves `get` and `insert` only for keys that obey its
/// hashing laws; a `String` key gives no usable contract there, so the
/// counts could not be proved. And a hash map is walked in an order that is
/// not fixed, so the messages would come out in an order that no contract
/// can state; here they come in the order in which each repeated value
/// first occurs. The quadratic cost is no concern at the size of the data.
fn report_repeats(out: &mut Vec<String>, keys: &Vec<String>, with_count: bool)
    ensures
        texts(final(out)@) == texts(old(out)@) + repeats(
            texts(keys@),
            if with_count {
                |k: Seq<char>, c: nat| dup_name_msg(k, c)
            } else {
                |k: Seq<char>, c: nat| dup_slug_msg(k, c)
            },
            keys@.len() as int,
        ),
{
    let ghost ks = texts(keys@);
    let ghost msg = if with_count {
        |k: Seq<char>, c: nat| dup_name_msg(k, c)
    } else {
        |k: Seq<char>, c: nat| dup_slug_msg(k, c)
    };
    let mut i: usize = 0;
    assert(texts(out@) =~= texts(old(out)@) + repeats(ks, msg, 0));
    while i < keys.len()
        invariant
            i <= keys.len(),
            ks == texts(keys@),
            ks.len() == keys@.len(),
            msg == (if with_count {
                |k: Seq<char>, c: nat| dup_name_msg(k, c)
            } else {
                |k: Seq<char>, c: nat| dup_slug_msg(k, c)
            }),
            texts(out@) == texts(old(out)@) + repeats(ks, msg, i as int),
        decreases keys.len() - i,
    {
        let ghost before = texts(out@);
        let first = is_first_of_kind(keys, i);
        let count = count_text(keys, keys[i].as_str());
        if first && count > 1 {
            let m = if with_count {
                let mut m = owned("duplicate program name \"");
                m.append(keys[i].as_str());
                m.append("\" appears ");
                push_decimal(&mut m, count as u64);
                m.append(" times");
                m
            } else {
                let mut m = owned("duplicate resource section slug \"");
                m.append(keys[i].as_str());
                m.append("\"");
                m
            };
            push_msg(out, m);
        }
        assert(texts(out@) =~= before + msg_if(
            first_of_repeated(ks, i as int),
            msg(ks[i as int], count_key(ks, ks[i as int], ks.len() as int)),
        ));
        i += 1;
    }
}

/// Checks one stipend block; the messages go to `out`.
fn check_stipend(out: &mut Vec<String>, p: &Program)
    ensures
        texts(final(out)@) == texts(old(out)@) + stipend_errors(*p),
{
    let ghost start = texts(out@);
    match &p.stipend {
        Some(s) => {
            if let (Some(lo), Some(hi)) = (s.min, s.max) {
                if lo > hi {
                    let mut m = with_name(p.name.as_str(), ": stipend min ");
                    push_decimal(&mut m, lo);
                    m.append(" exceeds max ");
                    push_decimal(&mut m, hi);
                    push_msg(out, m);
                }
            }
            let ghost a = texts(out@);
            let ranged = s.min.is_some() || s.max.is_some();
            if ranged && s.currency.is_none() {
                push_msg(out, with_name(p.name.as_str(), ": stipend has an amount but no currency"));
            }
            let ghost b = texts(out@);
            if s.unpaid && ranged {
                push_msg(out, with_name(p.name.as_str(), ": stipend marked unpaid but carries an amount"));
            }
            assert(a =~= start + msg_if(
                s.min is Some && s.max is Some && s.min->0 > s.max->0,
                p.name@ + ": stipend min "@ + decimal(s.min->0 as nat) + " exceeds max "@
                    + decimal(s.max->0 as nat),
            ));
            assert(texts(out@) =~= start + stipend_errors(*p));
        },
        None => {
            assert(texts(out@) =~= start + stipend_errors(*p));
        },
    }
}

/// Checks one program's errors.
fn check_program_errors(r: &mut Report, p: &Program)
    ensures
        texts(final(r).errors@) == texts(old(r).errors@) + program_errors(*p),
        final(r).warnings == old(r).warnings,
{
    let ghost e0 = texts(r.errors@);
    if is_blank(p.name.as_str()) {
        r.err(owned("a program has an empty name"));
    }
    let ghost e1 = texts(r.errors@);
    if !starts_with(p.url.as_str(), "https://") && !starts_with(p.url.as_str(), "http://") {
        let mut m = with_name(p.name.as_str(), ": url must be absolute, got \"");
        m.append(p.url.as_str());
        m.append("\"");
        r.err(m);
    }
    let ghost e2 = texts(r.errors@);
    // A program tagged both paid and unpaid is a mistake.
    let unpaid_tag = tags_contain(&p.tags, "unpaid");
    if p.is_paid() && unpaid_tag {
        r.err(with_name(p.name.as_str(), ": tagged both paid and unpaid"));
    }
    let ghost e3 = texts(r.errors@);
    check_stipend(&mut r.errors, p);
    assert(e1 =~= e0 + msg_if(blank(p.name@), "a program has an empty name"@));
    assert(e2 =~= e1 + msg_if(
        !absolute_url(p.url@),
        p.name@ + ": url must be absolute, got \""@ + p.url@ + "\""@,
    ));
    assert(e3 =~= e2 + msg_if(
        is_paid_spec(*p) && has_tag(*p, "unpaid"@),
        p.name@ + ": tagged both paid and unpaid"@,
    ));
    assert(texts(r.errors@) =~= e0 + program_errors(*p));
}

/// Checks one program's warnings.
fn check_program_warnings(r: &mut Report, p: &Program)
    ensures
        texts(final(r).warnings@) == texts(old(r).warnings@) + program_warnings(*p),
        final(r).errors == old(r).errors,
{
    let ghost w0 = texts(r.warnings@);
    if is_blank(p.org.as_str()) {
        r.warn(with_name(p.name.as_str(), ": no org set"));
    }
    let ghost w1 = texts(r.warnings@);
    if p.timeline.is_none() {
        r.warn(with_name(p.name.as_str(), ": no timeline set"));
    }
    let ghost w2 = texts(r.warnings@);
    if p.eligibility.is_none() {
        r.warn(with_name(p.name.as_str(), ": no eligibility set"));
    }
    let ghost w3 = texts(r.warnings@);
    // A program tagged `paid` with no stipend information tells the reader
    // nothing.
    if p.is_paid() && p.stipend.is_none() && p.rewards.is_none() {
        r.warn(with_name(p.name.as_str(), ": tagged paid but has no stipend block"));
    }
    assert(w1 =~= w0 + msg_if(blank(p.org@), p.name@ + ": no org set"@));
    assert(w2 =~= w1 + msg_if(p.timeline is None, p.name@ + ": no timeline set"@));
    assert(w3 =~= w2 + msg_if(p.eligibility is None, p.name@ + ": no eligibility set"@));
    assert(texts(r.warnings@) =~= w0 + program_warnings(*p));
}

/// Checks one program: its errors go to `r.errors`, its warnings to
/// `r.warnings`.
fn check_program(r: &mut Report, p: &Program)
    ensures
        texts(final(r).errors@) == texts(old(r).errors@) + program_errors(*p),
        texts(final(r).warnings@) == texts(old(r).warnings@) + program_warnings(*p),
{
    check_program_errors(r, p);
    check_program_warnings(r, p);
}

/// Runs every rule over the site. `errors` holds, in order: duplicate
/// program names (compared lowercased, one message per repeated name at its
/// first occurrence), each program's errors, timeline months outside 1-12,
/// and duplicate resource slugs. `warnings` holds each program's warnings,
/// then unknown program references from the timeline and from the guide.
pub fn check(site: &Site) -> (r: Report)
    ensures
        texts(r.errors@) == errors_spec(*site),
        texts(r.warnings@) == warnings_spec(*site),
{
    let mut r = Report { errors: Vec::new(), warnings: Vec::new() };
    let ghost all = all_programs(*site);
    let mut list: Vec<&Program> = Vec::new();
    let mut k: usize = 0;
    while k < site.programs.len()
        invariant
            k <= site.programs.len(),
            all == all_programs(*site),
            list@.len() == k,
            forall|i: int| 0 <= i < k ==> *(#[trigger] list@[i]) == all[i],
        decreases site.programs.len() - k,
    {
        list.push(&site.programs[k]);
        k += 1;
    }
    let mut k: usize = 0;
    while k < site.competitions.len()
        invariant
            k <= site.competitions.len(),
            all == all_programs(*site),
            list@.len() == site.programs.len() + k,
            forall|i: int| 0 <= i < list@.len() ==> *(#[trigger] list@[i]) == all[i],
        decreases site.competitions.len() - k,
    {
        list.push(&site.competitions[k]);
        k += 1;
    }
    let n = list.len();

    // Lowercased names (for duplicates) and names plus short names (for
    // cross references), over programs and competitions alike.
    let mut keys: Vec<String> = Vec::new();
    let mut names: Vec<String> = Vec::new();
    let mut k: usize = 0;
    assert(texts(names@) =~= known_names(all, 0));
    while k < n
        invariant
            n == list@.len(),
            all == all_programs(*site),
            all.len() == n,
            forall|i: int| 0 <= i < n ==> *(#[trigger] list@[i]) == all[i],
            k <= n,
            texts(keys@) == name_keys(all).take(k as int),
            texts(names@) == known_names(all, k as int),
        decreases n - k,
    {
        let p = list[k];
        assert(*p == all[k as int]);
        let key = to_lower(p.name.as_str());
        push_msg(&mut keys, key);
        push_msg(&mut names, to_lower(p.name.as_str()));
        match &p.short_name {
            Some(s) => push_msg(&mut names, to_lower(s.as_str())),
            None => {},
        }
        assert(texts(keys@) =~= name_keys(all).take(k + 1));
        assert(texts(names@) =~= known_names(all, k + 1));
        k += 1;
    }
    assert(name_keys(all).take(n as int) =~= name_keys(all));

    // Duplicate names. The data once listed one program twice with
    // different stipends; that is exactly the drift this catches.
    report_repeats(&mut r.errors, &keys, true);

    let ghost fe = |p: Program| program_errors(p);
    let ghost fw = |p: Program| program_warnings(p);
    let ghost e0 = texts(r.errors@);
    let ghost w0 = texts(r.warnings@);
    assert(w0 =~= Seq::<Seq<char>>::empty());
    let mut k: usize = 0;
    assert(texts(r.errors@) =~= e0 + concat_msgs(all, fe, 0));
    while k < n
        invariant
            n == list@.len(),
            all == all_programs(*site),
            all.len() == n,
            forall|i: int| 0 <= i < n ==> *(#[trigger] list@[i]) == all[i],
            k <= n,
            texts(names@) == known_names(all, all.len() as int),
            fe == (|p: Program| program_errors(p)),
            fw == (|p: Program| program_warnings(p)),
            texts(r.errors@) == e0 + concat_msgs(all, fe, k as int),
            texts(r.warnings@) == w0 + concat_msgs(all, fw, k as int),
        decreases n - k,
    {
        let p = list[k];
        assert(*p == all[k as int]);
        check_program(&mut r, p);
        assert(texts(r.errors@) =~= e0 + concat_msgs(all, fe, k + 1));
        assert(texts(r.warnings@) =~= w0 + concat_msgs(all, fw, k + 1));
        k += 1;
    }

    // Timeline months must be real, and every `program:` reference should
    // resolve to something in the list so cross-links do not dangle.
    let events = &site.timeline.events;
    let ghost fm = |e: TimelineEvent| month_errors(e);
    let ghost fv = |e: TimelineEvent| event_warnings(all, e);
    let ghost e1 = texts(r.errors@);
    let ghost w1 = texts(r.warnings@);
    let mut i: usize = 0;
    assert(texts(r.errors@) =~= e1 + concat_msgs(events@, fm, 0));
    assert(texts(r.warnings@) =~= w1 + concat_msgs(events@, fv, 0));
    while i < events.len()
        invariant
            events == &site.timeline.events,
            all == all_programs(*site),
            texts(names@) == known_names(all, all.len() as int),
            i <= events.len(),
            fm == (|e: TimelineEvent| month_errors(e)),
            fv == (|e: TimelineEvent| event_warnings(all, e)),
            texts(r.errors@) == e1 + concat_msgs(events@, fm, i as int),
            texts(r.warnings@) == w1 + concat_msgs(events@, fv, i as int),
        decreases events.len() - i,
    {
        let e = &events[i];
        let ghost eb = texts(r.errors@);
        let ghost wb = texts(r.warnings@);
        if !(1 <= e.month && e.month <= 12) {
            let mut m = owned("timeline event \"");
            m.append(e.event.as_str());
            m.append("\" has month ");
            push_decimal(&mut m, e.month as u64);
            m.append(", expected 1-12");
            r.err(m);
        }
        match &e.program {
            Some(prog) => {
                let key = to_lower(prog.as_str());
                if !contains_text(&names, key.as_str()) {
                    let mut m = owned("timeline event \"");
                    m.append(e.event.as_str());
                    m.append("\" references unknown program \"");
                    m.append(prog.as_str());
                    m.append("\"");
                    r.warn(m);
                }
            },
            None => {},
        }
        assert(texts(r.errors@) =~= eb + month_errors(*e));
        assert(texts(r.warnings@) =~= wb + event_warnings(all, *e));
        assert(texts(r.errors@) =~= e1 + concat_msgs(events@, fm, i + 1));
        assert(texts(r.warnings@) =~= w1 + concat_msgs(events@, fv, i + 1));
        i += 1;
    }

    // Guide picks reference programs by name too.
    let picks = &site.guide.best_for_beginners;
    let ghost fp = |pk: BeginnerPick| pick_warnings(all, pk);
    let ghost w2 = texts(r.warnings@);
    let mut j: usize = 0;
    assert(texts(r.warnings@) =~= w2 + concat_msgs(picks@, fp, 0));
    while j < picks.len()
        invariant
            picks == &site.guide.best_for_beginners,
            all == all_programs(*site),
            texts(names@) == known_names(all, all.len() as int),
            j <= picks.len(),
            fp == (|pk: BeginnerPick| pick_warnings(all, pk)),
            texts(r.warnings@) == w2 + concat_msgs(picks@, fp, j as int),
            texts(r.errors@) == errors_before_slugs(*site),
        decreases picks.len() - j,
    {
        let pick = &picks[j];
        let ghost wb = texts(r.warnings@);
        let key = to_lower(pick.program.as_str());
        if !contains_text(&names, key.as_str()) {
            let mut m = owned("guide.best_for_beginners references unknown program \"");
            m.append(pick.program.as_str());
            m.append("\"");
            r.warn(m);
        }
        assert(texts(r.warnings@) =~= wb + pick_warnings(all, *pick));
        assert(texts(r.warnings@) =~= w2 + concat_msgs(picks@, fp, j + 1));
        j += 1;
    }

    let mut slugs: Vec<String> = Vec::new();
    let secs = &site.resources;
    let mut s: usize = 0;
    while s < secs.len()
        invariant
            secs == &site.resources,
            s <= secs.len(),
            texts(slugs@) == slug_keys(secs@).take(s as int),
        decreases secs.len() - s,
    {
        push_msg(&mut slugs, secs[s].slug.clone());
        assert(texts(slugs@) =~= slug_keys(secs@).take(s + 1));
        s += 1;
    }
    assert(slug_keys(secs@).take(secs.len() as int) =~= slug_keys(secs@));
    let ghost eb = texts(r.errors@);
    report_repeats(&mut r.errors, &slugs, false);
    assert(texts(r.errors@) =~= errors_spec(*site));
    assert(texts(r.warnings@) =~= warnings_spec(*site));
    r
}

/// The errors before the duplicate-slug check.
pub open spec fn errors_before_slugs(site: Site) -> Seq<Seq<char>> {
    let all = all_programs(site);
    let keys = name_keys(all);
    repeats(keys, |k: Seq<char>, c: nat| dup_name_msg(k, c), keys.len() as int) + concat_msgs(
        all,
        |p: Program| program_errors(p),
        all.len() as int,
    ) + concat_msgs(
        site.timeline.events@,
        |e: TimelineEvent| month_errors(e),
        site.timeline.events@.len() as int,
    )
}

} // verus!

verus! {

// ---------------------------------------------------------------------------
// Laws.
// ---------------------------------------------------------------------------

/// No two entries are equal.
pub open spec fn distinct(keys: Seq<Seq<char>>) -> bool {
    forall|i: int, j: int| 0 <= i < j < keys.len() ==> keys[i] != keys[j]
}

pub open spec fn stipend_consistent(p: Program) -> bool {
    match p.stipend {
        Some(s) => {
            &&& !(s.min is Some && s.max is Some && s.min->0 > s.max->0)
            &&& !(has_range(s) && s.currency is None)
            &&& !(s.unpaid && has_range(s))
        },
        None => true,
    }
}

/// A program the build accepts: a name, an absolute URL, not both paid
/// and unpaid, and a stipend whose amount has a currency, whose minimum does
/// not exceed its maximum and which is not marked unpaid with an amount.
pub open spec fn program_consistent(p: Program) -> bool {
    &&& !blank(p.name@)
    &&& absolute_url(p.url@)
    &&& !(is_paid_spec(p) && has_tag(p, "unpaid"@))
    &&& stipend_consistent(p)
}

/// Data with no contradiction in it: program names distinct (ignoring
/// case), every program consistent, every timeline month real, resource
/// slugs distinct.
pub open spec fn consistent(site: Site) -> bool {
    let all = all_programs(site);
    &&& distinct(name_keys(all))
    &&& forall|i: int| 0 <= i < all.len() ==> program_consistent(#[trigger] all[i])
    &&& forall|i: int|
        0 <= i < site.timeline.events@.len() ==> 1 <= (#[trigger] site.timeline.events@[i]).month
            <= 12
    &&& distinct(slug_keys(site.resources@))
}

proof fn lemma_concat_msgs_empty<T>(xs: Seq<T>, f: spec_fn(T) -> Seq<Seq<char>>, n: int)
    requires
        n <= xs.len(),
    ensures
        concat_msgs(xs, f, n).len() == 0 <==> forall|i: int| 0 <= i < n ==> (#[trigger] f(xs[i])).len() == 0,
    decreases n,
{
    if n > 0 {
        lemma_concat_msgs_empty(xs, f, n - 1);
    }
}

proof fn lemma_repeats_empty(keys: Seq<Seq<char>>, msg: spec_fn(Seq<char>, nat) -> Seq<char>, n: int)
    requires
        n <= keys.len(),
    ensures
        repeats(keys, msg, n).len() == 0 <==> forall|i: int| 0 <= i < n ==> !#[trigger] first_of_repeated(keys, i),
    decreases n,
{
    if n > 0 {
        lemma_repeats_empty(keys, msg, n - 1);
    }
}

proof fn lemma_count_distinct(keys: Seq<Seq<char>>, i: int, n: int)
    requires
        distinct(keys),
        0 <= i < keys.len(),
        n <= keys.len(),
    ensures
        count_key(keys, keys[i], n) == if i < n {
            1nat
        } else {
            0nat
        },
    decreases n,
{
    if n > 0 {
        lemma_count_distinct(keys, i, n - 1);
    }
}

proof fn lemma_count_monotone(keys: Seq<Seq<char>>, k: Seq<char>, a: int, b: int)
    requires
        0 <= a <= b,
    ensures
        count_key(keys, k, a) <= count_key(keys, k, b),
    decreases b - a,
{
    if a < b {
        lemma_count_monotone(keys, k, a, b - 1);
    }
}

proof fn lemma_first_occurrence(keys: Seq<Seq<char>>, i: int) -> (m: int)
    requires
        0 <= i < keys.len(),
    ensures
        0 <= m <= i,
        keys[m] == keys[i],
        first_of_kind(keys, m),
    decreases i,
{
    if first_of_kind(keys, i) {
        i
    } else {
        let j = choose|j: int| 0 <= j < i && keys[j] == keys[i];
        lemma_first_occurrence(keys, j)
    }
}

proof fn lemma_no_repeats_iff_distinct(keys: Seq<Seq<char>>)
    ensures
        (forall|i: int| 0 <= i < keys.len() ==> !#[trigger] first_of_repeated(keys, i)) <==> distinct(keys),
{
    if distinct(keys) {
        assert forall|i: int| 0 <= i < keys.len() implies !#[trigger] first_of_repeated(keys, i) by {
            lemma_count_distinct(keys, i, keys.len() as int);
        }
    } else {
        let (p, q) = choose|p: int, q: int| 0 <= p < q < keys.len() && keys[p] == keys[q];
        let m = lemma_first_occurrence(keys, p);
        let k = keys[m];
        lemma_count_monotone(keys, k, 0, m);
        lemma_count_monotone(keys, k, m + 1, q);
        lemma_count_monotone(keys, k, q + 1, keys.len() as int);
        assert(count_key(keys, k, m + 1) == count_key(keys, k, m) + 1);
        assert(count_key(keys, k, q + 1) == count_key(keys, k, q) + 1);
        assert(first_of_repeated(keys, m));
    }
}

/// Law: the build fails exactly on contradictory data. `check` reports no
/// error if and only if the data is `consistent`; warnings never decide it.
pub proof fn law_check_passes_iff_consistent(site: Site)
    ensures
        errors_spec(site).len() == 0 <==> consistent(site),
{
    let all = all_programs(site);
    let keys = name_keys(all);
    let skeys = slug_keys(site.resources@);
    let fe = |p: Program| program_errors(p);
    let fm = |e: TimelineEvent| month_errors(e);
    lemma_repeats_empty(keys, |k: Seq<char>, c: nat| dup_name_msg(k, c), keys.len() as int);
    lemma_repeats_empty(skeys, |k: Seq<char>, c: nat| dup_slug_msg(k, c), skeys.len() as int);
    lemma_no_repeats_iff_distinct(keys);
    lemma_no_repeats_iff_distinct(skeys);
    lemma_concat_msgs_empty(all, fe, all.len() as int);
    lemma_concat_msgs_empty(site.timeline.events@, fm, site.timeline.events@.len() as int);
    assert forall|i: int| #![trigger all[i]] 0 <= i < all.len() implies fe(all[i]).len() == 0
        <==> program_consistent(all[i]) by {
        let p = all[i];
        assert(fe(p) == program_errors(p));
    }
    let a = repeats(keys, |k: Seq<char>, c: nat| dup_name_msg(k, c), keys.len() as int);
    let b = concat_msgs(all, fe, all.len() as int);
    let c = concat_msgs(site.timeline.events@, fm, site.timeline.events@.len() as int);
    let d = repeats(skeys, |k: Seq<char>, c: nat| dup_slug_msg(k, c), skeys.len() as int);
    assert(errors_spec(site) == a + b + c + d);
    assert(a.len() == 0 <==> distinct(keys));
    assert(d.len() == 0 <==> distinct(skeys));
    if b.len() == 0 {
        assert forall|i: int| 0 <= i < all.len() implies program_consistent(#[trigger] all[i]) by {
            assert(fe(all[i]).len() == 0);
        }
    }
    if forall|i: int| 0 <= i < all.len() ==> program_consistent(#[trigger] all[i]) {
        assert forall|i: int| 0 <= i < all.len() implies (#[trigger] fe(all[i])).len() == 0 by {
            assert(program_consistent(all[i]));
        }
    }
    assert(b.len() == 0 <==> forall|i: int| 0 <= i < all.len() ==> program_consistent(#[trigger] all[i]));
    let ev = site.timeline.events@;
    if c.len() == 0 {
        assert forall|i: int| 0 <= i < ev.len() implies 1 <= (#[trigger] ev[i]).month <= 12 by {
            assert(fm(ev[i]).len() == 0);
        }
    }
    if forall|i: int| 0 <= i < ev.len() ==> 1 <= (#[trigger] ev[i]).month <= 12 {
        assert forall|i: int| 0 <= i < ev.len() implies (#[trigger] fm(ev[i])).len() == 0 by {
            assert(1 <= ev[i].month <= 12);
        }
    }
    assert(c.len() == 0 <==> forall|i: int| 0 <= i < ev.len() ==> 1 <= (#[trigger] ev[i]).month <= 12);
}

} // verus!

verus! {

proof fn lemma_concat_msgs_congr<T, U>(
    xs: Seq<T>,
    f: spec_fn(T) -> Seq<Seq<char>>,
    ys: Seq<U>,
    g: spec_fn(U) -> Seq<Seq<char>>,
    n: int,
)
    requires
        forall|i: int| 0 <= i < n ==> #[trigger] f(xs[i]) == g(ys[i]),
    ensures
        concat_msgs(xs, f, n) == concat_msgs(ys, g, n),
    decreases n,
{
    if n > 0 {
        lemma_concat_msgs_congr(xs, f, ys, g, n - 1);
    }
}

proof fn lemma_concat_msgs_contains<T>(xs: Seq<T>, f: spec_fn(T) -> Seq<Seq<char>>, n: int, i: int, m: Seq<char>)
    requires
        0 <= i < n,
        f(xs[i]).contains(m),
    ensures
        concat_msgs(xs, f, n).contains(m),
    decreases n,
{
    let w = f(xs[i]);
    let k = choose|k: int| 0 <= k < w.len() && #[trigger] w[k] == m;
    if i == n - 1 {
        let a = concat_msgs(xs, f, n - 1);
        assert((a + f(xs[i]))[a.len() + k] == m);
    } else {
        lemma_concat_msgs_contains(xs, f, n - 1, i, m);
        let a = concat_msgs(xs, f, n - 1);
        let j = choose|j: int| 0 <= j < a.len() && a[j] == m;
        assert((a + f(xs[n - 1]))[j] == m);
    }
}

/// The facts about a program that its error checks read: name, URL, tags
/// and stipend.
pub open spec fn same_checked_facts(p: Program, q: Program) -> bool {
    &&& p.name@ == q.name@
    &&& p.url@ == q.url@
    &&& p.tags@.len() == q.tags@.len()
    &&& forall|k: int| 0 <= k < p.tags@.len() ==> (#[trigger] p.tags@[k])@ == q.tags@[k]@
    &&& p.stipend == q.stipend
}

/// Two sites that differ at most in what is merely incomplete: orgs,
/// timelines, eligibility, caveats, rewards, short names, event dates,
/// times and program references, and the guide.
pub open spec fn differ_only_in_completeness(s1: Site, s2: Site) -> bool {
    let a1 = all_programs(s1);
    let a2 = all_programs(s2);
    &&& a1.len() == a2.len()
    &&& forall|i: int| 0 <= i < a1.len() ==> same_checked_facts(#[trigger] a1[i], a2[i])
    &&& s1.timeline.events@.len() == s2.timeline.events@.len()
    &&& forall|i: int|
        0 <= i < s1.timeline.events@.len() ==> (#[trigger] s1.timeline.events@[i]).month
            == s2.timeline.events@[i].month && s1.timeline.events@[i].event@
            == s2.timeline.events@[i].event@
    &&& slug_keys(s1.resources@) == slug_keys(s2.resources@)
}

proof fn lemma_program_errors_same(p: Program, q: Program)
    requires
        same_checked_facts(p, q),
    ensures
        program_errors(p) == program_errors(q),
{
    assert(has_tag(p, "paid"@) == has_tag(q, "paid"@)) by {
        if has_tag(p, "paid"@) {
            let k = choose|k: int| 0 <= k < p.tags@.len() && (#[trigger] p.tags@[k])@ == "paid"@;
            assert(q.tags@[k]@ == "paid"@);
        }
        if has_tag(q, "paid"@) {
            let k = choose|k: int| 0 <= k < q.tags@.len() && (#[trigger] q.tags@[k])@ == "paid"@;
            assert(p.tags@[k]@ == "paid"@);
        }
    }
    assert(has_tag(p, "unpaid"@) == has_tag(q, "unpaid"@)) by {
        if has_tag(p, "unpaid"@) {
            let k = choose|k: int| 0 <= k < p.tags@.len() && (#[trigger] p.tags@[k])@ == "unpaid"@;
            assert(q.tags@[k]@ == "unpaid"@);
        }
        if has_tag(q, "unpaid"@) {
            let k = choose|k: int| 0 <= k < q.tags@.len() && (#[trigger] q.tags@[k])@ == "unpaid"@;
            assert(p.tags@[k]@ == "unpaid"@);
        }
    }
}

/// Law: incomplete entries never fail the build. Two sites that differ only
/// in orgs, timelines, eligibility, program references and the like get
/// exactly the same errors.
pub proof fn law_incomplete_entries_keep_errors(s1: Site, s2: Site)
    requires
        differ_only_in_completeness(s1, s2),
    ensures
        errors_spec(s1) == errors_spec(s2),
{
    let a1 = all_programs(s1);
    let a2 = all_programs(s2);
    assert(name_keys(a1) =~= name_keys(a2)) by {
        assert forall|i: int| 0 <= i < a1.len() implies name_keys(a1)[i] == name_keys(a2)[i] by {
            assert(same_checked_facts(a1[i], a2[i]));
        }
    }
    let fe = |p: Program| program_errors(p);
    assert forall|i: int| 0 <= i < a1.len() implies #[trigger] fe(a1[i]) == fe(a2[i]) by {
        assert(same_checked_facts(a1[i], a2[i]));
        lemma_program_errors_same(a1[i], a2[i]);
    }
    lemma_concat_msgs_congr(a1, fe, a2, fe, a1.len() as int);
    let fm = |e: TimelineEvent| month_errors(e);
    let e1 = s1.timeline.events@;
    let e2 = s2.timeline.events@;
    assert forall|i: int| 0 <= i < e1.len() implies #[trigger] fm(e1[i]) == fm(e2[i]) by {
        assert(e1[i].month == e2[i].month && e1[i].event@ == e2[i].event@);
    }
    lemma_concat_msgs_congr(e1, fm, e2, fm, e1.len() as int);
}

/// Law: what is merely incomplete is reported as a warning. A program with
/// no timeline, no eligibility or a blank org, and a timeline event naming
/// no known program, each get their warning.
pub proof fn law_incomplete_entries_warn(site: Site)
    ensures
        forall|i: int|
            0 <= i < all_programs(site).len() ==> {
                let p = #[trigger] all_programs(site)[i];
                &&& p.timeline is None ==> warnings_spec(site).contains(p.name@ + ": no timeline set"@)
                &&& p.eligibility is None ==> warnings_spec(site).contains(
                    p.name@ + ": no eligibility set"@,
                )
                &&& blank(p.org@) ==> warnings_spec(site).contains(p.name@ + ": no org set"@)
            },
        forall|i: int|
            0 <= i < site.timeline.events@.len() ==> {
                let e = #[trigger] site.timeline.events@[i];
                e.program is Some && !known(all_programs(site), e.program->0@)
                    ==> warnings_spec(site).contains(
                    "timeline event \""@ + e.event@ + "\" references unknown program \""@
                        + e.program->0@ + "\""@,
                )
            },
{
    let all = all_programs(site);
    let fw = |p: Program| program_warnings(p);
    let fv = |e: TimelineEvent| event_warnings(all, e);
    let fp = |pk: BeginnerPick| pick_warnings(all, pk);
    let ev = site.timeline.events@;
    let picks = site.guide.best_for_beginners@;
    let a = concat_msgs(all, fw, all.len() as int);
    let b = concat_msgs(ev, fv, ev.len() as int);
    let c = concat_msgs(picks, fp, picks.len() as int);
    assert(warnings_spec(site) == a + b + c);
    assert forall|i: int| 0 <= i < all.len() implies {
        let p = #[trigger] all[i];
        &&& p.timeline is None ==> warnings_spec(site).contains(p.name@ + ": no timeline set"@)
        &&& p.eligibility is None ==> warnings_spec(site).contains(p.name@ + ": no eligibility set"@)
        &&& blank(p.org@) ==> warnings_spec(site).contains(p.name@ + ": no org set"@)
    } by {
        let p = all[i];
        let w = fw(p);
        assert(w == program_warnings(p));
        let m0 = msg_if(blank(p.org@), p.name@ + ": no org set"@);
        let m1 = msg_if(p.timeline is None, p.name@ + ": no timeline set"@);
        let m2 = msg_if(p.eligibility is None, p.name@ + ": no eligibility set"@);
        let m3 = msg_if(
            is_paid_spec(p) && p.stipend is None && p.rewards is None,
            p.name@ + ": tagged paid but has no stipend block"@,
        );
        let msgs = seq![
            p.name@ + ": no timeline set"@,
            p.name@ + ": no eligibility set"@,
            p.name@ + ": no org set"@,
        ];
        assert(w == m0 + m1 + m2 + m3);
        if p.timeline is None {
            assert(w[m0.len() as int] == msgs[0]);
        }
        if p.eligibility is None {
            assert(w[(m0.len() + m1.len()) as int] == msgs[1]);
        }
        if blank(p.org@) {
            assert(w[0] == msgs[2]);
        }
        if p.timeline is None {
            assert(w.contains(msgs[0]));
            lemma_concat_msgs_contains(all, fw, all.len() as int, i, msgs[0]);
            let j = choose|j: int| 0 <= j < a.len() && a[j] == msgs[0];
            assert((a + b + c)[j] == msgs[0]);
        }
        if p.eligibility is None {
            assert(w.contains(msgs[1]));
            lemma_concat_msgs_contains(all, fw, all.len() as int, i, msgs[1]);
            let j = choose|j: int| 0 <= j < a.len() && a[j] == msgs[1];
            assert((a + b + c)[j] == msgs[1]);
        }
        if blank(p.org@) {
            assert(w.contains(msgs[2]));
            lemma_concat_msgs_contains(all, fw, all.len() as int, i, msgs[2]);
            let j = choose|j: int| 0 <= j < a.len() && a[j] == msgs[2];
            assert((a + b + c)[j] == msgs[2]);
        }
    }
    assert forall|i: int| 0 <= i < ev.len() implies {
        let e = #[trigger] ev[i];
        e.program is Some && !known(all, e.program->0@) ==> warnings_spec(site).contains(
            "timeline event \""@ + e.event@ + "\" references unknown program \""@ + e.program->0@
                + "\""@,
        )
    } by {
        let e = ev[i];
        if e.program is Some && !known(all, e.program->0@) {
            let m = "timeline event \""@ + e.event@ + "\" references unknown program \""@
                + e.program->0@ + "\""@;
            assert(fv(e) == seq![m]);
            assert(fv(e)[0] == m);
            lemma_concat_msgs_contains(ev, fv, ev.len() as int, i, m);
            let j = choose|j: int| 0 <= j < b.len() && b[j] == m;
            assert((a + b + c)[a.len() + j] == m);
        }
    }
}

// ---------------------------------------------------------------------------
// Unknown references from the guide.
// ---------------------------------------------------------------------------

/// Whether program `p` goes by `name`: its name or its short name, both
/// compared lowercased.
pub open spec fn goes_by(p: Program, name: Seq<char>) -> bool {
    ||| lowercase_text(p.name@) == lowercase_text(name)
    ||| p.short_name matches Some(s) && lowercase_text(s@) == lowercase_text(name)
}

/// Whether some program or competition goes by `name`.
pub open spec fn names_a_program(all: Seq<Program>, name: Seq<char>) -> bool {
    exists|i: int| 0 <= i < all.len() && goes_by(#[trigger] all[i], name)
}

/// The warning for a guide pick that names no program.
pub open spec fn unknown_pick_msg(name: Seq<char>) -> Seq<char> {
    "guide.best_for_beginners references unknown program \""@ + name + "\""@
}

proof fn lemma_known_names(all: Seq<Program>, n: int, name: Seq<char>)
    requires
        0 <= n <= all.len(),
    ensures
        known_names(all, n).contains(lowercase_text(name)) <==> exists|i: int|
            0 <= i < n && goes_by(#[trigger] all[i], name),
    decreases n,
{
    let key = lowercase_text(name);
    if n > 0 {
        lemma_known_names(all, n - 1, name);
        let prev = known_names(all, n - 1);
        let p = all[n - 1];
        let own = seq![lowercase_text(p.name@)];
        let short = match p.short_name {
            Some(s) => seq![lowercase_text(s@)],
            None => Seq::<Seq<char>>::empty(),
        };
        let cur = known_names(all, n);
        assert(cur == prev + own + short);
        if cur.contains(key) {
            let j = choose|j: int| 0 <= j < cur.len() && cur[j] == key;
            if j >= prev.len() {
                if j == prev.len() {
                    assert(cur[j] == lowercase_text(p.name@));
                } else {
                    assert(cur[j] == short[0]);
                }
                assert(goes_by(all[n - 1], name));
            } else {
                assert(prev[j] == key);
            }
        }
        if exists|i: int| 0 <= i < n && goes_by(#[trigger] all[i], name) {
            let i = choose|i: int| 0 <= i < n && goes_by(#[trigger] all[i], name);
            if i < n - 1 {
                let j = choose|j: int| 0 <= j < prev.len() && prev[j] == key;
                assert(cur[j] == key);
            } else if lowercase_text(p.name@) == key {
                assert(cur[prev.len() as int] == key);
            } else {
                assert(cur[(prev.len() + 1) as int] == key);
            }
        }
    }
}

/// Whether a reference is known is whether some entry goes by it.
pub proof fn lemma_known_iff_names_a_program(all: Seq<Program>, name: Seq<char>)
    ensures
        known(all, name) <==> names_a_program(all, name),
{
    lemma_known_names(all, all.len() as int, name);
}

proof fn lemma_concat_msgs_contains_inv<T>(xs: Seq<T>, f: spec_fn(T) -> Seq<Seq<char>>, n: int, m: Seq<char>)
    requires
        concat_msgs(xs, f, n).contains(m),
    ensures
        exists|i: int| 0 <= i < n && (#[trigger] f(xs[i])).contains(m),
    decreases n,
{
    if n > 0 {
        let a = concat_msgs(xs, f, n - 1);
        let w = f(xs[n - 1]);
        let j = choose|j: int| 0 <= j < (a + w).len() && (a + w)[j] == m;
        if j < a.len() {
            assert(a[j] == m);
            lemma_concat_msgs_contains_inv(xs, f, n - 1, m);
        } else {
            assert(w[j - a.len()] == m);
            assert(f(xs[n - 1]).contains(m));
        }
    }
}

proof fn lemma_program_warnings_end_in_letters(p: Program, m: Seq<char>)
    requires
        program_warnings(p).contains(m),
    ensures
        m.len() > 0 && m.last() != '"',
{
    reveal_strlit(": no org set");
    reveal_strlit(": no timeline set");
    reveal_strlit(": no eligibility set");
    reveal_strlit(": tagged paid but has no stipend block");
    let m0 = msg_if(blank(p.org@), p.name@ + ": no org set"@);
    let m1 = msg_if(p.timeline is None, p.name@ + ": no timeline set"@);
    let m2 = msg_if(p.eligibility is None, p.name@ + ": no eligibility set"@);
    let m3 = msg_if(
        is_paid_spec(p) && p.stipend is None && p.rewards is None,
        p.name@ + ": tagged paid but has no stipend block"@,
    );
    let w = program_warnings(p);
    assert(w == m0 + m1 + m2 + m3);
    let j = choose|j: int| 0 <= j < w.len() && w[j] == m;
    assert(m == p.name@ + ": no org set"@ || m == p.name@ + ": no timeline set"@ || m == p.name@
        + ": no eligibility set"@ || m == p.name@ + ": tagged paid but has no stipend block"@);
}

proof fn lemma_event_warnings_start(all: Seq<Program>, e: TimelineEvent, m: Seq<char>)
    requires
        event_warnings(all, e).contains(m),
    ensures
        m.len() > 0 && m[0] == 't',
{
    reveal_strlit("timeline event \"");
    let w = event_warnings(all, e);
    let j = choose|j: int| 0 <= j < w.len() && w[j] == m;
}

proof fn lemma_unknown_pick_msg_injective(a: Seq<char>, b: Seq<char>)
    requires
        unknown_pick_msg(a) == unknown_pick_msg(b),
    ensures
        a == b,
{
    let l = "guide.best_for_beginners references unknown program \""@;
    assert(unknown_pick_msg(a).len() == l.len() + a.len() + "\""@.len());
    assert(unknown_pick_msg(b).len() == l.len() + b.len() + "\""@.len());
    assert(a.len() == b.len());
    assert forall|k: int| 0 <= k < a.len() implies a[k] == b[k] by {
        assert(unknown_pick_msg(a)[l.len() + k] == a[k]);
        assert(unknown_pick_msg(b)[l.len() + k] == b[k]);
    }
    assert(a =~= b);
}

/// Law: a guide pick is warned about exactly when no program or
/// competition goes by its text, by name or by short name, compared
/// lowercased.
pub proof fn law_pick_warned_iff_unknown(site: Site, j: int)
    requires
        0 <= j < site.guide.best_for_beginners@.len(),
    ensures
        ({
            let q = site.guide.best_for_beginners@[j].program@;
            warnings_spec(site).contains(unknown_pick_msg(q)) <==> !names_a_program(all_programs(site), q)
        }),
{
    reveal_strlit("guide.best_for_beginners references unknown program \"");
    reveal_strlit("\"");
    let all = all_programs(site);
    let picks = site.guide.best_for_beginners@;
    let q = picks[j].program@;
    let m = unknown_pick_msg(q);
    let fw = |p: Program| program_warnings(p);
    let fv = |e: TimelineEvent| event_warnings(all, e);
    let fp = |pk: BeginnerPick| pick_warnings(all, pk);
    let ev = site.timeline.events@;
    let a = concat_msgs(all, fw, all.len() as int);
    let b = concat_msgs(ev, fv, ev.len() as int);
    let c = concat_msgs(picks, fp, picks.len() as int);
    assert(warnings_spec(site) == a + b + c);
    lemma_known_iff_names_a_program(all, q);
    assert(m.len() > 0 && m[0] == 'g' && m.last() == '"');
    if !names_a_program(all, q) {
        assert(fp(picks[j]) == seq![m]);
        assert(fp(picks[j])[0] == m);
        lemma_concat_msgs_contains(picks, fp, picks.len() as int, j, m);
        let k = choose|k: int| 0 <= k < c.len() && c[k] == m;
        assert((a + b + c)[a.len() + b.len() + k] == m);
    }
    if warnings_spec(site).contains(m) {
        let k = choose|k: int| 0 <= k < (a + b + c).len() && (a + b + c)[k] == m;
        if k < a.len() {
            assert(a[k] == m);
            lemma_concat_msgs_contains_inv(all, fw, all.len() as int, m);
            let i = choose|i: int| 0 <= i < all.len() && (#[trigger] fw(all[i])).contains(m);
            lemma_program_warnings_end_in_letters(all[i], m);
        } else if k < a.len() + b.len() {
            assert(b[k - a.len()] == m);
            lemma_concat_msgs_contains_inv(ev, fv, ev.len() as int, m);
            let i = choose|i: int| 0 <= i < ev.len() && (#[trigger] fv(ev[i])).contains(m);
            lemma_event_warnings_start(all, ev[i], m);
        } else {
            assert(c[k - a.len() - b.len()] == m);
            lemma_concat_msgs_contains_inv(picks, fp, picks.len() as int, m);
            let i = choose|i: int| 0 <= i < picks.len() && (#[trigger] fp(picks[i])).contains(m);
            let w = fp(picks[i]);
            assert(w == pick_warnings(all, picks[i]));
            assert(w.len() == 1 && w[0] == unknown_pick_msg(picks[i].program@) && !known(all, picks[i].program@));
            lemma_unknown_pick_msg_injective(picks[i].program@, q);
        }
    }
}

} // verus!
