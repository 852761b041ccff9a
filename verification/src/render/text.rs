//! Text transforms used by every page: HTML escaping, inline code spans and
//! slugs.
use vstd::prelude::*;
use vstd::string::*;

use crate::strings::{ascii_lower, chars_vec, is_alnum, is_alnum_ascii, lower_ascii, push_char, push_range};

verus! {

// ---------------------------------------------------------------------------
// HTML escaping.
// ---------------------------------------------------------------------------

/// How one character is written in HTML text or an attribute value.
pub open spec fn esc_char(c: char) -> Seq<char> {
    if c == '&' {
        "&amp;"@
    } else if c == '<' {
        "&lt;"@
    } else if c == '>' {
        "&gt;"@
    } else if c == '"' {
        "&quot;"@
    } else if c == '\'' {
        "&#39;"@
    } else {
        seq![c]
    }
}

/// `s` with every character replaced by `esc_char` of it.
pub open spec fn escaped(s: Seq<char>) -> Seq<char>
    decreases s.len(),
{
    if s.len() == 0 {
        seq![]
    } else {
        escaped(s.drop_last()) + esc_char(s.last())
    }
}

/// Appends `esc_char(c)` to `o`.
fn push_escaped_char(o: &mut String, c: char)
    ensures
        final(o)@ == old(o)@ + esc_char(c),
{
    if c == '&' {
        o.append("&amp;");
    } else if c == '<' {
        o.append("&lt;");
    } else if c == '>' {
        o.append("&gt;");
    } else if c == '"' {
        o.append("&quot;");
    } else if c == '\'' {
        o.append("&#39;");
    } else {
        push_char(o, c);
        assert(old(o)@.push(c) =~= old(o)@ + seq![c]);
    }
}

/// HTML-escape text content.
pub fn esc(s: &str) -> (r: String)
    ensures
        r@ == escaped(s@),
{
    let v = chars_vec(s);
    let mut o = String::new();
    let mut i: usize = 0;
    while i < v.len()
        invariant
            v@ == s@,
            i <= v.len(),
            o@ == escaped(v@.take(i as int)),
        decreases v.len() - i,
    {
        push_escaped_char(&mut o, v[i]);
        assert(v@.take(i + 1).drop_last() =~= v@.take(i as int));
        i += 1;
    }
    assert(v@.take(i as int) =~= s@);
    o
}

// ---------------------------------------------------------------------------
// Inline code spans.
// ---------------------------------------------------------------------------

pub open spec fn code_open() -> Seq<char> {
    "<code class=\"code-label\">"@
}

pub open spec fn code_close() -> Seq<char> {
    "</code>"@
}

/// Index of the first backtick at or after `from`; `r.len()` if there is none.
pub open spec fn next_tick(r: Seq<char>, from: int) -> int
    decreases r.len() - from,
{
    if from < 0 || from >= r.len() {
        r.len() as int
    } else if r[from] == '`' {
        from
    } else {
        next_tick(r, from + 1)
    }
}

pub proof fn lemma_next_tick_bounds(r: Seq<char>, from: int)
    requires
        0 <= from,
    ensures
        from <= next_tick(r, from) <= r.len() || (from > r.len() && next_tick(r, from) == r.len()),
        next_tick(r, from) < r.len() ==> r[next_tick(r, from)] == '`',
        forall|k: int| from <= k < next_tick(r, from) ==> r[k] != '`',
    decreases r.len() - from,
{
    if from < r.len() && r[from] != '`' {
        lemma_next_tick_bounds(r, from + 1);
    }
}

/// The rest of `r` from `pos` on, with each pair of backticks turned into a
/// code element around what lies between them. A backtick with no partner
/// after it, and everything after it, stays as it is.
pub open spec fn code_spans_from(r: Seq<char>, pos: int) -> Seq<char>
    decreases r.len() - pos,
{
    if pos < 0 || pos >= r.len() {
        seq![]
    } else {
        let open = next_tick(r, pos);
        if open >= r.len() {
            r.skip(pos)
        } else {
            let close = next_tick(r, open + 1);
            if close >= r.len() {
                r.skip(pos)
            } else {
                proof {
                    lemma_next_tick_bounds(r, pos);
                    lemma_next_tick_bounds(r, open + 1);
                }
                r.subrange(pos, open) + code_open() + r.subrange(open + 1, close) + code_close()
                    + code_spans_from(r, close + 1)
            }
        }
    }
}

/// What `esc_code` gives: the escaped text with its backtick pairs turned
/// into code elements.
pub open spec fn esc_code_spec(s: Seq<char>) -> Seq<char> {
    code_spans_from(escaped(s), 0)
}

fn find_tick(v: &Vec<char>, from: usize) -> (r: usize)
    requires
        from <= v.len(),
    ensures
        r == next_tick(v@, from as int),
{
    let mut j = from;
    while j < v.len() && v[j] != '`'
        invariant
            from <= j <= v.len(),
            next_tick(v@, from as int) == next_tick(v@, j as int),
        decreases v.len() - j,
    {
        j += 1;
    }
    j
}

/// Escape text, then turn `backtick spans` into styled code labels.
///
/// Escaping runs first, so the content inside the backticks can never inject
/// markup; only the fence characters themselves become tags. An unmatched
/// trailing backtick is left as a literal.
pub fn esc_code(s: &str) -> (r: String)
    ensures
        r@ == esc_code_spec(s@),
{
    let escaped_text = esc(s);
    let v = chars_vec(escaped_text.as_str());
    let len = v.len();
    let mut out = String::new();
    let mut pos: usize = 0;
    assert(out@ + code_spans_from(v@, 0) =~= code_spans_from(v@, 0));
    while pos < len
        invariant
            len == v.len(),
            v@ == escaped(s@),
            pos <= len,
            out@ + code_spans_from(v@, pos as int) == code_spans_from(v@, 0),
        decreases len - pos,
    {
        let ghost before = out@;
        let open = find_tick(&v, pos);
        if open >= len {
            push_range(&mut out, &v, pos, len);
            assert(v@.subrange(pos as int, len as int) =~= v@.skip(pos as int));
            return out;
        }
        let close = find_tick(&v, open + 1);
        if close >= len {
            push_range(&mut out, &v, pos, len);
            assert(v@.subrange(pos as int, len as int) =~= v@.skip(pos as int));
            return out;
        }
        proof {
            lemma_next_tick_bounds(v@, pos as int);
            lemma_next_tick_bounds(v@, open + 1);
        }
        push_range(&mut out, &v, pos, open);
        out.append("<code class=\"code-label\">");
        push_range(&mut out, &v, open + 1, close);
        out.append("</code>");
        assert(out@ + code_spans_from(v@, close + 1) =~= before + code_spans_from(v@, pos as int));
        pos = close + 1;
    }
    assert(code_spans_from(v@, pos as int) =~= Seq::<char>::empty());
    assert(out@ =~= out@ + code_spans_from(v@, pos as int));
    out
}

// ---------------------------------------------------------------------------
// Slugs.
// ---------------------------------------------------------------------------

/// One pass over `s`: ASCII letters and digits are kept (lowercased), and
/// every run of other characters becomes a single `-`. The flag says whether
/// the output so far ends in such a `-`.
pub open spec fn slug_scan(s: Seq<char>) -> (Seq<char>, bool)
    decreases s.len(),
{
    if s.len() == 0 {
        (seq![], false)
    } else {
        let (o, dash) = slug_scan(s.drop_last());
        let c = s.last();
        if is_alnum_ascii(c) {
            (o.push(ascii_lower(c)), false)
        } else if !dash {
            (o.push('-'), true)
        } else {
            (o, dash)
        }
    }
}

/// `s` without the `c` characters at either end (`trim_matches(c)`).
pub open spec fn trim_edges(s: Seq<char>, c: char) -> Seq<char>
    decreases s.len(),
{
    if s.len() > 0 && s[0] == c {
        trim_edges(s.drop_first(), c)
    } else if s.len() > 0 && s.last() == c {
        trim_edges(s.drop_last(), c)
    } else {
        s
    }
}

/// The bounds `(a, b)` with `trim_edges(v, c) == v[a..b]`.
pub fn trim_bounds(v: &Vec<char>, c: char) -> (r: (usize, usize))
    ensures
        r.0 <= r.1 <= v.len(),
        trim_edges(v@, c) == v@.subrange(r.0 as int, r.1 as int),
{
    let len = v.len();
    let mut a: usize = 0;
    assert(v@.subrange(0, len as int) =~= v@);
    while a < len && v[a] == c
        invariant
            a <= len == v.len(),
            trim_edges(v@, c) == trim_edges(v@.subrange(a as int, len as int), c),
        decreases len - a,
    {
        assert(v@.subrange(a as int, len as int).drop_first() =~= v@.subrange(a + 1, len as int));
        a += 1;
    }
    let mut b: usize = len;
    while b > a && v[b - 1] == c
        invariant
            a <= b <= len == v.len(),
            a < len ==> v@[a as int] != c,
            trim_edges(v@, c) == trim_edges(v@.subrange(a as int, b as int), c),
        decreases b - a,
    {
        let ghost t = v@.subrange(a as int, b as int);
        assert(t.drop_last() =~= v@.subrange(a as int, b - 1));
        if b - 1 > a {
            assert(t[0] == v@[a as int]);
        }
        b -= 1;
    }
    proof {
        let t = v@.subrange(a as int, b as int);
        if t.len() > 0 {
            assert(t[0] == v@[a as int]);
            assert(t.last() == v@[b - 1]);
        }
        assert(trim_edges(t, c) == t);
    }
    (a, b)
}

pub open spec fn slug_spec(s: Seq<char>) -> Seq<char> {
    trim_edges(slug_scan(s).0, '-')
}

pub fn slugify(s: &str) -> (r: String)
    ensures
        r@ == slug_spec(s@),
{
    let v = chars_vec(s);
    let mut raw: Vec<char> = Vec::new();
    let mut dash = false;
    let mut i: usize = 0;
    while i < v.len()
        invariant
            v@ == s@,
            i <= v.len(),
            (raw@, dash) == slug_scan(v@.take(i as int)),
        decreases v.len() - i,
    {
        let ch = v[i];
        assert(v@.take(i + 1).drop_last() =~= v@.take(i as int));
        i += 1;
        if is_alnum(ch) {
            raw.push(lower_ascii(ch));
            dash = false;
        } else if !dash {
            raw.push('-');
            dash = true;
        }
    }
    assert(v@.take(i as int) =~= s@);
    let (a, b) = trim_bounds(&raw, '-');
    let mut out = String::new();
    push_range(&mut out, &raw, a, b);
    assert(out@ =~= slug_spec(s@));
    out
}

} // verus!

verus! {

/// `f` applied to each of the first `n` items, concatenated in order.
pub open spec fn concat_map<T>(xs: Seq<T>, f: spec_fn(T) -> Seq<char>, n: int) -> Seq<char>
    decreases n,
{
    if n <= 0 {
        seq![]
    } else {
        concat_map(xs, f, n - 1) + f(xs[n - 1])
    }
}

/// Whether `part` occurs somewhere in `whole` as a run of consecutive
/// characters.
pub open spec fn has_part(whole: Seq<char>, part: Seq<char>) -> bool {
    exists|i: int| 0 <= i && i + part.len() <= whole.len() && #[trigger] whole.subrange(i, i + part.len()) == part
}

/// A text has the middle one of three texts it is made of.
pub proof fn lemma_has_part_middle(a: Seq<char>, b: Seq<char>, c: Seq<char>)
    ensures
        has_part(a + b + c, b),
{
    let w = a + b + c;
    let i: int = a.len() as int;
    assert(w.subrange(i, i + b.len()) =~= b);
}

/// A text has whatever a text inside it has.
pub proof fn lemma_has_part_trans(x: Seq<char>, y: Seq<char>, z: Seq<char>)
    requires
        has_part(x, y),
        has_part(y, z),
    ensures
        has_part(x, z),
{
    let i = choose|i: int| 0 <= i && i + y.len() <= x.len() && #[trigger] x.subrange(i, i + y.len()) == y;
    let j = choose|j: int| 0 <= j && j + z.len() <= y.len() && #[trigger] y.subrange(j, j + z.len()) == z;
    assert forall|k: int| 0 <= k < z.len() implies x.subrange(i + j, i + j + z.len())[k] == z[k] by {
        assert(y.subrange(j, j + z.len())[k] == y[j + k]);
        assert(x.subrange(i, i + y.len())[j + k] == x[i + j + k]);
    }
    assert(x.subrange(i + j, i + j + z.len()) =~= z);
}

/// A text has itself.
pub proof fn lemma_has_part_self(x: Seq<char>)
    ensures
        has_part(x, x),
{
    let i: int = 0;
    assert(x.subrange(i, i + x.len()) =~= x);
}

/// A text has what either of its two halves has.
pub proof fn lemma_has_part_concat(a: Seq<char>, b: Seq<char>, p: Seq<char>)
    requires
        has_part(a, p) || has_part(b, p),
    ensures
        has_part(a + b, p),
{
    if has_part(a, p) {
        lemma_has_part_middle(seq![], a, b);
        assert(seq![] + a + b =~= a + b);
        lemma_has_part_trans(a + b, a, p);
    } else {
        lemma_has_part_middle(a, b, seq![]);
        assert(a + b + seq![] =~= a + b);
        lemma_has_part_trans(a + b, b, p);
    }
}

/// Each item's text is part of the concatenation.
pub proof fn lemma_concat_map_has_part<T>(xs: Seq<T>, f: spec_fn(T) -> Seq<char>, n: int, i: int)
    requires
        0 <= i < n,
    ensures
        has_part(concat_map(xs, f, n), f(xs[i])),
    decreases n,
{
    if i == n - 1 {
        lemma_has_part_self(f(xs[i]));
    } else {
        lemma_concat_map_has_part(xs, f, n - 1, i);
    }
    lemma_has_part_concat(concat_map(xs, f, n - 1), f(xs[n - 1]), f(xs[i]));
}

} // verus!

verus! {

// ---------------------------------------------------------------------------
// Laws.
// ---------------------------------------------------------------------------

/// No character that could open a tag, close one or end an attribute value.
pub open spec fn markup_free(t: Seq<char>) -> bool {
    forall|i: int|
        0 <= i < t.len() ==> #[trigger] t[i] != '<' && t[i] != '>' && t[i] != '"' && t[i] != '\''
}

proof fn lemma_esc_char_markup_free(c: char)
    ensures
        markup_free(esc_char(c)),
{
    reveal_strlit("&amp;");
    reveal_strlit("&lt;");
    reveal_strlit("&gt;");
    reveal_strlit("&quot;");
    reveal_strlit("&#39;");
}

/// Law: escaped text is markup free. Whatever the input, `esc` never emits
/// `<`, `>`, `"` or `'`, so it can stand in text content and inside a quoted
/// attribute value.
pub proof fn law_escaped_is_markup_free(s: Seq<char>)
    ensures
        markup_free(escaped(s)),
    decreases s.len(),
{
    if s.len() > 0 {
        law_escaped_is_markup_free(s.drop_last());
        lemma_esc_char_markup_free(s.last());
        let a = escaped(s.drop_last());
        let b = esc_char(s.last());
        assert forall|i: int| 0 <= i < (a + b).len() implies #[trigger] (a + b)[i] != '<' && (a
            + b)[i] != '>' && (a + b)[i] != '"' && (a + b)[i] != '\'' by {
            if i < a.len() {
                assert((a + b)[i] == a[i]);
            } else {
                assert((a + b)[i] == b[i - a.len()]);
            }
        }
    }
}

/// Whether `p` occurs in `t` starting at `i`.
pub open spec fn occurs_at(t: Seq<char>, i: int, p: Seq<char>) -> bool {
    0 <= i && i + p.len() <= t.len() && t.subrange(i, i + p.len()) == p
}

/// Every `<` in `t` begins a code-label opening tag or a `</code>`.
pub open spec fn only_code_tags(t: Seq<char>) -> bool {
    forall|i: int|
        0 <= i < t.len() && #[trigger] t[i] == '<' ==> occurs_at(t, i, code_open()) || occurs_at(
            t,
            i,
            code_close(),
        )
}

proof fn lemma_only_code_tags_concat(a: Seq<char>, b: Seq<char>)
    requires
        only_code_tags(a),
        only_code_tags(b),
    ensures
        only_code_tags(a + b),
{
    let t = a + b;
    assert forall|i: int| 0 <= i < t.len() && #[trigger] t[i] == '<' implies occurs_at(t, i, code_open())
        || occurs_at(t, i, code_close()) by {
        if i < a.len() {
            assert(a[i] == '<');
            if occurs_at(a, i, code_open()) {
                assert(t.subrange(i, i + code_open().len()) =~= a.subrange(i, i + code_open().len()));
            } else {
                assert(t.subrange(i, i + code_close().len()) =~= a.subrange(i, i + code_close().len()));
            }
        } else {
            let j = i - a.len();
            assert(b[j] == '<');
            if occurs_at(b, j, code_open()) {
                assert(t.subrange(i, i + code_open().len()) =~= b.subrange(j, j + code_open().len()));
            } else {
                assert(t.subrange(i, i + code_close().len()) =~= b.subrange(j, j + code_close().len()));
            }
        }
    }
}

proof fn lemma_tags_only_code_tags()
    ensures
        only_code_tags(code_open()),
        only_code_tags(code_close()),
{
    reveal_strlit("<code class=\"code-label\">");
    reveal_strlit("</code>");
    assert(code_open().subrange(0, code_open().len() as int) =~= code_open());
    assert(code_close().subrange(0, code_close().len() as int) =~= code_close());
}

proof fn lemma_code_spans_only_code_tags(r: Seq<char>, pos: int)
    requires
        forall|i: int| 0 <= i < r.len() ==> #[trigger] r[i] != '<',
    ensures
        only_code_tags(code_spans_from(r, pos)),
    decreases r.len() - pos,
{
    if pos >= 0 && pos < r.len() {
        let open = next_tick(r, pos);
        lemma_next_tick_bounds(r, pos);
        if open < r.len() {
            let close = next_tick(r, open + 1);
            lemma_next_tick_bounds(r, open + 1);
            if close < r.len() {
                lemma_code_spans_only_code_tags(r, close + 1);
                lemma_tags_only_code_tags();
                let a = r.subrange(pos, open);
                let b = r.subrange(open + 1, close);
                assert(only_code_tags(a));
                assert(only_code_tags(b));
                lemma_only_code_tags_concat(a, code_open());
                lemma_only_code_tags_concat(a + code_open(), b);
                lemma_only_code_tags_concat(a + code_open() + b, code_close());
                lemma_only_code_tags_concat(
                    a + code_open() + b + code_close(),
                    code_spans_from(r, close + 1),
                );
            } else {
                assert(only_code_tags(r.skip(pos)));
            }
        } else {
            assert(only_code_tags(r.skip(pos)));
        }
    } else {
        assert(only_code_tags(code_spans_from(r, pos)));
    }
}

/// Law: backtick spans cannot inject markup. Every `<` in the output of
/// `esc_code` begins one of the two code-label tags that the fences become;
/// nothing in the input can produce any other tag.
pub proof fn law_esc_code_only_adds_code_tags(s: Seq<char>)
    ensures
        only_code_tags(esc_code_spec(s)),
{
    law_escaped_is_markup_free(s);
    lemma_code_spans_only_code_tags(escaped(s), 0);
}

proof fn lemma_no_tick_spans(r: Seq<char>, k: int)
    requires
        0 <= k <= r.len(),
        forall|i: int| 0 <= i < r.len() ==> #[trigger] r[i] != '`',
    ensures
        next_tick(r, k) == r.len(),
    decreases r.len() - k,
{
    if k < r.len() {
        lemma_no_tick_spans(r, k + 1);
    }
}

proof fn lemma_escaped_keeps_ticks_out(s: Seq<char>)
    requires
        forall|i: int| 0 <= i < s.len() ==> #[trigger] s[i] != '`',
    ensures
        forall|i: int| 0 <= i < escaped(s).len() ==> #[trigger] escaped(s)[i] != '`',
    decreases s.len(),
{
    if s.len() > 0 {
        lemma_escaped_keeps_ticks_out(s.drop_last());
        reveal_strlit("&amp;");
        reveal_strlit("&lt;");
        reveal_strlit("&gt;");
        reveal_strlit("&quot;");
        reveal_strlit("&#39;");
        let a = escaped(s.drop_last());
        let b = esc_char(s.last());
        assert forall|i: int| 0 <= i < (a + b).len() implies #[trigger] (a + b)[i] != '`' by {
            if i < a.len() {
                assert((a + b)[i] == a[i]);
            } else {
                assert((a + b)[i] == b[i - a.len()]);
            }
        }
    }
}

/// Law: text without backticks is simply escaped by `esc_code`.
pub proof fn law_esc_code_without_ticks(s: Seq<char>)
    requires
        forall|i: int| 0 <= i < s.len() ==> #[trigger] s[i] != '`',
    ensures
        esc_code_spec(s) == escaped(s),
{
    lemma_escaped_keeps_ticks_out(s);
    let r = escaped(s);
    if r.len() > 0 {
        lemma_no_tick_spans(r, 0);
        assert(r.skip(0) =~= r);
    } else {
        assert(code_spans_from(r, 0) =~= r);
    }
}

/// A character a slug may hold: a lowercase ASCII letter, a digit or `-`.
pub open spec fn slug_char(c: char) -> bool {
    ('a' <= c && c <= 'z') || ('0' <= c && c <= '9') || c == '-'
}

/// Well-formed slug: only slug characters, no `-` at either end, never two
/// `-` in a row.
pub open spec fn well_formed_slug(t: Seq<char>) -> bool {
    &&& forall|i: int| 0 <= i < t.len() ==> slug_char(#[trigger] t[i])
    &&& (t.len() > 0 ==> t[0] != '-' && t.last() != '-')
    &&& forall|i: int| 0 <= i < t.len() - 1 ==> !(#[trigger] t[i] == '-' && t[i + 1] == '-')
}

proof fn lemma_slug_scan(s: Seq<char>)
    ensures
        forall|i: int| 0 <= i < slug_scan(s).0.len() ==> slug_char(#[trigger] slug_scan(s).0[i]),
        forall|i: int|
            0 <= i < slug_scan(s).0.len() - 1 ==> !(#[trigger] slug_scan(s).0[i] == '-'
                && slug_scan(s).0[i + 1] == '-'),
        slug_scan(s).1 == (slug_scan(s).0.len() > 0 && slug_scan(s).0.last() == '-'),
    decreases s.len(),
{
    if s.len() > 0 {
        lemma_slug_scan(s.drop_last());
        let c = s.last();
        if is_alnum_ascii(c) {
            let l = ascii_lower(c);
            if 'A' <= c && c <= 'Z' {
                assert(65 <= (c as u32) <= 90);
                assert('a' <= l && l <= 'z');
            }
            assert(slug_char(l));
        }
    }
}

proof fn lemma_trim_edges(s: Seq<char>, c: char)
    ensures
        exists|a: int, b: int|
            0 <= a <= b <= s.len() && #[trigger] trim_edges(s, c) == s.subrange(a, b),
        trim_edges(s, c).len() > 0 ==> trim_edges(s, c)[0] != c && trim_edges(s, c).last() != c,
    decreases s.len(),
{
    if s.len() > 0 && s[0] == c {
        lemma_trim_edges(s.drop_first(), c);
        let t = s.drop_first();
        let (a, b) = choose|a: int, b: int|
            0 <= a <= b <= t.len() && #[trigger] trim_edges(t, c) == t.subrange(a, b);
        assert(t.subrange(a, b) =~= s.subrange(a + 1, b + 1));
    } else if s.len() > 0 && s.last() == c {
        lemma_trim_edges(s.drop_last(), c);
        let t = s.drop_last();
        let (a, b) = choose|a: int, b: int|
            0 <= a <= b <= t.len() && #[trigger] trim_edges(t, c) == t.subrange(a, b);
        assert(t.subrange(a, b) =~= s.subrange(a, b));
    } else {
        assert(s.subrange(0, s.len() as int) =~= s);
    }
}

/// Law: slugs are well formed. Whatever the input, `slugify` gives only
/// lowercase ASCII letters, digits and single dashes, with no dash at either
/// end.
pub proof fn law_slug_well_formed(s: Seq<char>)
    ensures
        well_formed_slug(slug_spec(s)),
{
    let raw = slug_scan(s).0;
    lemma_slug_scan(s);
    lemma_trim_edges(raw, '-');
    let (a, b) = choose|a: int, b: int|
        0 <= a <= b <= raw.len() && #[trigger] trim_edges(raw, '-') == raw.subrange(a, b);
    let t = slug_spec(s);
    assert(t == raw.subrange(a, b));
    assert forall|i: int| 0 <= i < t.len() implies slug_char(#[trigger] t[i]) by {
        assert(t[i] == raw[a + i]);
    }
    assert forall|i: int| 0 <= i < t.len() - 1 implies !(#[trigger] t[i] == '-' && t[i + 1] == '-') by {
        assert(t[i] == raw[a + i]);
        assert(t[i + 1] == raw[a + i + 1]);
    }
}

} // verus!

verus! {

/// Law: escaping works character by character, so it distributes over
/// concatenation.
pub proof fn law_escaped_concat(a: Seq<char>, b: Seq<char>)
    ensures
        escaped(a + b) == escaped(a) + escaped(b),
    decreases b.len(),
{
    if b.len() == 0 {
        assert(a + b =~= a);
        assert(escaped(a) + escaped(b) =~= escaped(a));
    } else {
        law_escaped_concat(a, b.drop_last());
        assert((a + b).drop_last() =~= a + b.drop_last());
        assert((a + b).last() == b.last());
        assert(escaped(a + b) =~= escaped(a) + escaped(b));
    }
}

/// Whether `t` holds none of the characters that escaping rewrites.
pub open spec fn needs_no_escape(t: Seq<char>) -> bool {
    forall|i: int|
        0 <= i < t.len() ==> #[trigger] t[i] != '&' && t[i] != '<' && t[i] != '>' && t[i] != '"'
            && t[i] != '\''
}

/// Law: text with nothing to escape comes out unchanged.
pub proof fn law_escaped_clean_text(s: Seq<char>)
    requires
        needs_no_escape(s),
    ensures
        escaped(s) == s,
    decreases s.len(),
{
    if s.len() > 0 {
        law_escaped_clean_text(s.drop_last());
        assert(s.drop_last() + seq![s.last()] =~= s);
    }
}

/// Reads HTML-escaped text back: each of the five entities that escaping
/// writes becomes its character again; everything else is kept.
pub open spec fn unescaped(t: Seq<char>) -> Seq<char>
    decreases t.len(),
{
    if t.len() == 0 {
        t
    } else if t.len() >= 5 && "&amp;"@.is_prefix_of(t) {
        seq!['&'] + unescaped(t.skip(5))
    } else if t.len() >= 4 && "&lt;"@.is_prefix_of(t) {
        seq!['<'] + unescaped(t.skip(4))
    } else if t.len() >= 4 && "&gt;"@.is_prefix_of(t) {
        seq!['>'] + unescaped(t.skip(4))
    } else if t.len() >= 6 && "&quot;"@.is_prefix_of(t) {
        seq!['"'] + unescaped(t.skip(6))
    } else if t.len() >= 5 && "&#39;"@.is_prefix_of(t) {
        seq!['\''] + unescaped(t.skip(5))
    } else {
        seq![t[0]] + unescaped(t.drop_first())
    }
}

proof fn lemma_not_prefix(p: Seq<char>, t: Seq<char>, i: int)
    requires
        0 <= i < p.len(),
        i < t.len(),
        p[i] != t[i],
    ensures
        !p.is_prefix_of(t),
{
    if p.is_prefix_of(t) {
        assert(t.subrange(0, p.len() as int)[i] == t[i]);
    }
}

proof fn lemma_unescape_step(c: char, rest: Seq<char>)
    ensures
        unescaped(esc_char(c) + rest) == seq![c] + unescaped(rest),
{
    reveal_strlit("&amp;");
    reveal_strlit("&lt;");
    reveal_strlit("&gt;");
    reveal_strlit("&quot;");
    reveal_strlit("&#39;");
    let t = esc_char(c) + rest;
    let e = esc_char(c);
    assert(t.skip(e.len() as int) =~= rest);
    assert(t.subrange(0, e.len() as int) =~= e);
    assert(e.is_prefix_of(t));
    if c == '&' {
    } else if c == '<' {
        lemma_not_prefix("&amp;"@, t, 1);
    } else if c == '>' {
        lemma_not_prefix("&amp;"@, t, 1);
        lemma_not_prefix("&lt;"@, t, 1);
    } else if c == '"' {
        lemma_not_prefix("&amp;"@, t, 1);
        lemma_not_prefix("&lt;"@, t, 1);
        lemma_not_prefix("&gt;"@, t, 1);
    } else if c == '\'' {
        lemma_not_prefix("&amp;"@, t, 1);
        lemma_not_prefix("&lt;"@, t, 1);
        lemma_not_prefix("&gt;"@, t, 1);
        lemma_not_prefix("&quot;"@, t, 1);
    } else {
        assert(t[0] == c);
        assert(t.drop_first() =~= rest);
        lemma_not_prefix("&amp;"@, t, 0);
        lemma_not_prefix("&lt;"@, t, 0);
        lemma_not_prefix("&gt;"@, t, 0);
        lemma_not_prefix("&quot;"@, t, 0);
        lemma_not_prefix("&#39;"@, t, 0);
    }
}

/// Law: escaping can be undone; reading the entities back gives the
/// text it came from, so different texts never escape to the same markup.
pub proof fn law_escaped_can_be_undone(s: Seq<char>)
    ensures
        unescaped(escaped(s)) == s,
    decreases s.len(),
{
    if s.len() > 0 {
        let rest = s.drop_first();
        law_escaped_can_be_undone(rest);
        law_escaped_concat(seq![s[0]], rest);
        assert(seq![s[0]] + rest =~= s);
        assert(escaped(seq![s[0]]) =~= esc_char(s[0])) by {
            assert(seq![s[0]].drop_last() =~= Seq::<char>::empty());
            assert(escaped(Seq::<char>::empty()) =~= Seq::<char>::empty());
        }
        lemma_unescape_step(s[0], escaped(rest));
        assert(seq![s[0]] + rest =~= s);
    } else {
        assert(escaped(s) =~= s);
    }
}

} // verus!

verus! {

/// `t` with each code-label opening tag and each `</code>` turned back
/// into a backtick.
pub open spec fn tags_to_ticks(t: Seq<char>) -> Seq<char>
    decreases t.len(),
{
    if t.len() == 0 {
        t
    } else if t.len() >= 25 && code_open().is_prefix_of(t) {
        seq!['`'] + tags_to_ticks(t.skip(25))
    } else if t.len() >= 7 && code_close().is_prefix_of(t) {
        seq!['`'] + tags_to_ticks(t.skip(7))
    } else {
        seq![t[0]] + tags_to_ticks(t.drop_first())
    }
}

proof fn lemma_ticks_plain_prefix(x: Seq<char>, rest: Seq<char>)
    requires
        forall|i: int| 0 <= i < x.len() ==> #[trigger] x[i] != '<',
    ensures
        tags_to_ticks(x + rest) == x + tags_to_ticks(rest),
    decreases x.len(),
{
    reveal_strlit("<code class=\"code-label\">");
    reveal_strlit("</code>");
    if x.len() == 0 {
        assert(x + rest =~= rest);
        assert(x + tags_to_ticks(rest) =~= tags_to_ticks(rest));
    } else {
        let t = x + rest;
        assert(t[0] == x[0]);
        lemma_not_prefix(code_open(), t, 0);
        lemma_not_prefix(code_close(), t, 0);
        assert(t.drop_first() =~= x.drop_first() + rest);
        lemma_ticks_plain_prefix(x.drop_first(), rest);
        assert(seq![x[0]] + (x.drop_first() + tags_to_ticks(rest)) =~= x + tags_to_ticks(rest));
    }
}

proof fn lemma_ticks_tags(rest: Seq<char>)
    ensures
        tags_to_ticks(code_open() + rest) == seq!['`'] + tags_to_ticks(rest),
        tags_to_ticks(code_close() + rest) == seq!['`'] + tags_to_ticks(rest),
{
    reveal_strlit("<code class=\"code-label\">");
    reveal_strlit("</code>");
    let t = code_open() + rest;
    assert(t.subrange(0, 25) =~= code_open());
    assert(t.skip(25) =~= rest);
    let u = code_close() + rest;
    lemma_not_prefix(code_open(), u, 1);
    assert(u.subrange(0, 7) =~= code_close());
    assert(u.skip(7) =~= rest);
}

proof fn lemma_ticks_code_spans(r: Seq<char>, pos: int)
    requires
        0 <= pos <= r.len(),
        forall|i: int| 0 <= i < r.len() ==> #[trigger] r[i] != '<',
    ensures
        tags_to_ticks(code_spans_from(r, pos)) == r.skip(pos),
    decreases r.len() - pos,
{
    let empty = Seq::<char>::empty();
    if pos == r.len() {
        assert(r.skip(pos) =~= empty);
        assert(tags_to_ticks(empty) == empty);
    } else {
        let open = next_tick(r, pos);
        lemma_next_tick_bounds(r, pos);
        let close = next_tick(r, open + 1);
        if open < r.len() {
            lemma_next_tick_bounds(r, open + 1);
        }
        if open < r.len() && close < r.len() {
            let a = r.subrange(pos, open);
            let b = r.subrange(open + 1, close);
            let rest = code_spans_from(r, close + 1);
            lemma_ticks_code_spans(r, close + 1);
            assert(code_spans_from(r, pos) =~= a + (code_open() + (b + (code_close() + rest))));
            lemma_ticks_plain_prefix(a, code_open() + (b + (code_close() + rest)));
            lemma_ticks_tags(b + (code_close() + rest));
            lemma_ticks_plain_prefix(b, code_close() + rest);
            lemma_ticks_tags(rest);
            assert(a + (seq!['`'] + (b + (seq!['`'] + r.skip(close + 1)))) =~= r.skip(pos));
        } else {
            let x = r.skip(pos);
            assert(code_spans_from(r, pos) == x);
            lemma_ticks_plain_prefix(x, empty);
            assert(x + empty =~= x);
            assert(tags_to_ticks(empty) == empty);
            assert(x + tags_to_ticks(empty) =~= x);
        }
    }
}

/// Law: the code labels only stand in for the backtick fences. Turning
/// every inserted tag back into a backtick gives exactly the escaped text.
pub proof fn law_esc_code_restores_to_escaped(s: Seq<char>)
    ensures
        tags_to_ticks(esc_code_spec(s)) == escaped(s),
{
    let r = escaped(s);
    law_escaped_is_markup_free(s);
    lemma_ticks_code_spans(r, 0);
    assert(r.skip(0) =~= r);
}

/// How many times `c` occurs in `t`.
pub open spec fn count_char(t: Seq<char>, c: char) -> nat
    decreases t.len(),
{
    if t.len() == 0 {
        0
    } else {
        count_char(t.drop_last(), c) + if t.last() == c {
            1nat
        } else {
            0nat
        }
    }
}

proof fn lemma_count_concat(a: Seq<char>, b: Seq<char>, c: char)
    ensures
        count_char(a + b, c) == count_char(a, c) + count_char(b, c),
    decreases b.len(),
{
    if b.len() == 0 {
        assert(a + b =~= a);
    } else {
        lemma_count_concat(a, b.drop_last(), c);
        assert((a + b).drop_last() =~= a + b.drop_last());
    }
}

proof fn lemma_count_none(t: Seq<char>, c: char)
    requires
        forall|i: int| 0 <= i < t.len() ==> #[trigger] t[i] != c,
    ensures
        count_char(t, c) == 0,
    decreases t.len(),
{
    if t.len() > 0 {
        lemma_count_none(t.drop_last(), c);
    }
}

proof fn lemma_count_escaped_ticks(s: Seq<char>)
    ensures
        count_char(escaped(s), '`') == count_char(s, '`'),
    decreases s.len(),
{
    if s.len() > 0 {
        reveal_strlit("&amp;");
        reveal_strlit("&lt;");
        reveal_strlit("&gt;");
        reveal_strlit("&quot;");
        reveal_strlit("&#39;");
        lemma_count_escaped_ticks(s.drop_last());
        let e = esc_char(s.last());
        assert(escaped(s) == escaped(s.drop_last()) + e);
        lemma_count_concat(escaped(s.drop_last()), e, '`');
        if s.last() == '`' {
            lemma_count_single('`', '`');
        } else {
            assert forall|i: int| 0 <= i < e.len() implies #[trigger] e[i] != '`' by {}
            lemma_count_none(e, '`');
        }
    }
}

proof fn lemma_count_single(c: char, d: char)
    ensures
        count_char(seq![c], d) == if c == d {
            1nat
        } else {
            0nat
        },
{
    assert(seq![c].drop_last() =~= Seq::<char>::empty());
    assert(count_char(Seq::<char>::empty(), d) == 0);
    assert(seq![c].last() == c);
}

proof fn lemma_count_one_lt(t: Seq<char>)
    requires
        t.len() > 0,
        t[0] == '<',
        forall|i: int| 1 <= i < t.len() ==> #[trigger] t[i] != '<',
    ensures
        count_char(t, '<') == 1,
{
    let rest = t.skip(1);
    assert(seq!['<'] + rest =~= t);
    lemma_count_concat(seq!['<'], rest, '<');
    assert forall|i: int| 0 <= i < rest.len() implies #[trigger] rest[i] != '<' by {
        assert(rest[i] == t[i + 1]);
    }
    lemma_count_none(rest, '<');
    lemma_count_single('<', '<');
}

proof fn lemma_count_code_spans(r: Seq<char>, pos: int)
    requires
        0 <= pos <= r.len(),
        forall|i: int| 0 <= i < r.len() ==> #[trigger] r[i] != '<',
    ensures
        count_char(code_spans_from(r, pos), '<') == 2 * (count_char(r.skip(pos), '`') / 2),
    decreases r.len() - pos,
{
    reveal_strlit("<code class=\"code-label\">");
    reveal_strlit("</code>");
    let x = r.skip(pos);
    let empty = Seq::<char>::empty();
    assert(count_char(empty, '<') == 0);
    assert(count_char(empty, '`') == 0);
    if pos == r.len() {
        assert(x =~= empty);
        assert(code_spans_from(r, pos) == empty);
    } else {
        let open = next_tick(r, pos);
        lemma_next_tick_bounds(r, pos);
        let close = next_tick(r, open + 1);
        if open < r.len() {
            lemma_next_tick_bounds(r, open + 1);
        }
        if open < r.len() && close < r.len() {
            let a = r.subrange(pos, open);
            let b = r.subrange(open + 1, close);
            let rest = code_spans_from(r, close + 1);
            lemma_count_code_spans(r, close + 1);
            lemma_count_none(a, '<');
            lemma_count_none(b, '<');
            lemma_count_none(a, '`');
            lemma_count_none(b, '`');
            lemma_count_concat(a, code_open(), '<');
            lemma_count_concat(a + code_open(), b, '<');
            lemma_count_concat(a + code_open() + b, code_close(), '<');
            lemma_count_concat(a + code_open() + b + code_close(), rest, '<');
            lemma_count_one_lt(code_open());
            lemma_count_one_lt(code_close());
            let y = r.skip(close + 1);
            assert(x =~= a + seq!['`'] + b + seq!['`'] + y);
            lemma_count_concat(a, seq!['`'], '`');
            lemma_count_concat(a + seq!['`'], b, '`');
            lemma_count_concat(a + seq!['`'] + b, seq!['`'], '`');
            lemma_count_concat(a + seq!['`'] + b + seq!['`'], y, '`');
            lemma_count_single('`', '`');
            assert(count_char(x, '`') == count_char(y, '`') + 2);
            assert(count_char(code_spans_from(r, pos), '<') == count_char(rest, '<') + 2);
        } else {
            assert(code_spans_from(r, pos) == x);
            lemma_count_none(x, '<');
            if open >= r.len() {
                lemma_count_none(x, '`');
            } else {
                let a = r.subrange(pos, open);
                let y = r.skip(open + 1);
                assert(x =~= a + seq!['`'] + y);
                lemma_count_none(a, '`');
                lemma_count_none(y, '`');
                lemma_count_concat(a, seq!['`'], '`');
                lemma_count_concat(a + seq!['`'], y, '`');
                lemma_count_single('`', '`');
                assert(count_char(x, '`') == 1);
            }
        }
    }
}

/// Law: one code label per pair of backticks. Each label brings exactly two
/// `<` (its opening and closing tag) and nothing else does, so the output
/// of `esc_code` holds twice as many `<` as there are complete backtick
/// pairs in the input.
pub proof fn law_esc_code_one_span_per_pair(s: Seq<char>)
    ensures
        count_char(esc_code_spec(s), '<') == 2 * (count_char(s, '`') / 2),
{
    let r = escaped(s);
    law_escaped_is_markup_free(s);
    lemma_count_code_spans(r, 0);
    assert(r.skip(0) =~= r);
    lemma_count_escaped_ticks(s);
}

} // verus!

verus! {

/// The ASCII letters and digits of `s`, lowercased, in order.
pub open spec fn alnum_lowered(s: Seq<char>) -> Seq<char>
    decreases s.len(),
{
    if s.len() == 0 {
        seq![]
    } else if is_alnum_ascii(s.last()) {
        alnum_lowered(s.drop_last()).push(ascii_lower(s.last()))
    } else {
        alnum_lowered(s.drop_last())
    }
}

/// `t` without its `-` characters.
pub open spec fn without_dashes(t: Seq<char>) -> Seq<char>
    decreases t.len(),
{
    if t.len() == 0 {
        seq![]
    } else if t.last() != '-' {
        without_dashes(t.drop_last()).push(t.last())
    } else {
        without_dashes(t.drop_last())
    }
}

proof fn lemma_without_dashes_concat(a: Seq<char>, b: Seq<char>)
    ensures
        without_dashes(a + b) == without_dashes(a) + without_dashes(b),
    decreases b.len(),
{
    if b.len() == 0 {
        assert(a + b =~= a);
        assert(without_dashes(a) + without_dashes(b) =~= without_dashes(a));
    } else {
        lemma_without_dashes_concat(a, b.drop_last());
        assert((a + b).drop_last() =~= a + b.drop_last());
        assert(without_dashes(a + b) =~= without_dashes(a) + without_dashes(b));
    }
}

proof fn lemma_scan_keeps_alnum(s: Seq<char>)
    ensures
        without_dashes(slug_scan(s).0) == alnum_lowered(s),
    decreases s.len(),
{
    if s.len() > 0 {
        lemma_scan_keeps_alnum(s.drop_last());
        let (o, dash) = slug_scan(s.drop_last());
        let c = s.last();
        if is_alnum_ascii(c) {
            let l = ascii_lower(c);
            if 'A' <= c && c <= 'Z' {
                assert(65 <= (c as u32) <= 90);
                assert('a' <= l && l <= 'z');
            }
            assert(l != '-');
            assert(o.push(l).drop_last() =~= o);
        } else if !dash {
            assert(o.push('-').drop_last() =~= o);
        }
    }
}

proof fn lemma_trim_keeps_non_dashes(t: Seq<char>)
    ensures
        without_dashes(trim_edges(t, '-')) == without_dashes(t),
    decreases t.len(),
{
    if t.len() > 0 && t[0] == '-' {
        lemma_trim_keeps_non_dashes(t.drop_first());
        assert(seq!['-'] + t.drop_first() =~= t);
        lemma_without_dashes_concat(seq!['-'], t.drop_first());
        assert(seq!['-'].drop_last() =~= Seq::<char>::empty());
        assert(without_dashes(Seq::<char>::empty()) == Seq::<char>::empty());
        assert(without_dashes(seq!['-']) =~= Seq::<char>::empty());
        assert(Seq::<char>::empty() + without_dashes(t.drop_first()) =~= without_dashes(t.drop_first()));
    } else if t.len() > 0 && t.last() == '-' {
        lemma_trim_keeps_non_dashes(t.drop_last());
    }
}

/// Law: a slug keeps the letters and digits of its input, lowercased and
/// in order; only dashes are added.
pub proof fn law_slug_keeps_alnum(s: Seq<char>)
    ensures
        without_dashes(slug_spec(s)) == alnum_lowered(s),
{
    lemma_scan_keeps_alnum(s);
    lemma_trim_keeps_non_dashes(slug_scan(s).0);
}

proof fn lemma_scan_of_slug(t: Seq<char>, k: int)
    requires
        well_formed_slug(t),
        0 <= k <= t.len(),
    ensures
        slug_scan(t.take(k)) == (t.take(k), k > 0 && t[k - 1] == '-'),
    decreases k,
{
    if k > 0 {
        lemma_scan_of_slug(t, k - 1);
        let p = t.take(k);
        assert(p.drop_last() =~= t.take(k - 1));
        let c = t[k - 1];
        assert(p.last() == c);
        assert(slug_char(c));
        if c == '-' {
            assert(k - 1 > 0) by {
                if k - 1 == 0 {
                    assert(t[0] != '-');
                }
            }
            assert(!(t[k - 2] == '-' && t[k - 1] == '-'));
            assert(t.take(k - 1).push('-') =~= p);
        } else {
            assert(is_alnum_ascii(c));
            assert(ascii_lower(c) == c);
            assert(t.take(k - 1).push(c) =~= p);
        }
    }
}

/// Law: slugifying a slug changes nothing.
pub proof fn law_slug_idempotent(s: Seq<char>)
    ensures
        slug_spec(slug_spec(s)) == slug_spec(s),
{
    let t = slug_spec(s);
    law_slug_well_formed(s);
    lemma_scan_of_slug(t, t.len() as int);
    assert(t.take(t.len() as int) =~= t);
    assert(trim_edges(t, '-') == t);
}

} // verus!
