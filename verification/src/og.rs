//! Text layout for the Open Graph share cards: SVG escaping and headline
//! wrapping. Rasterizing the card is left to the caller.
use vstd::prelude::*;
use vstd::string::*;

use crate::strings::{chars_vec, is_white, push_char, push_range, white_space};

verus! {

// ---------------------------------------------------------------------------
// SVG escaping.
// ---------------------------------------------------------------------------

/// How one character is written in SVG character data.
pub open spec fn svg_esc_char(c: char) -> Seq<char> {
    if c == '&' {
        "&amp;"@
    } else if c == '<' {
        "&lt;"@
    } else if c == '>' {
        "&gt;"@
    } else if c == '"' {
        "&quot;"@
    } else if c == '\'' {
        "&apos;"@
    } else {
        seq![c]
    }
}

pub open spec fn svg_escaped(s: Seq<char>) -> Seq<char>
    decreases s.len(),
{
    if s.len() == 0 {
        seq![]
    } else {
        svg_escaped(s.drop_last()) + svg_esc_char(s.last())
    }
}

/// Escape text for inclusion in SVG character data.
pub fn esc(s: &str) -> (r: String)
    ensures
        r@ == svg_escaped(s@),
{
    let v = chars_vec(s);
    let mut o = String::new();
    let mut i: usize = 0;
    while i < v.len()
        invariant
            v@ == s@,
            i <= v.len(),
            o@ == svg_escaped(v@.take(i as int)),
        decreases v.len() - i,
    {
        let c = v[i];
        if c == '&' {
            o.append("&amp;");
        } else if c == '<' {
            o.append("&lt;");
        } else if c == '>' {
            o.append("&gt;");
        } else if c == '"' {
            o.append("&quot;");
        } else if c == '\'' {
            o.append("&apos;");
        } else {
            push_char(&mut o, c);
        }
        assert(v@.take(i + 1).drop_last() =~= v@.take(i as int));
        i += 1;
    }
    assert(v@.take(i as int) =~= s@);
    o
}

// ---------------------------------------------------------------------------
// Words.
// ---------------------------------------------------------------------------

/// Scan state: the words completed so far and the word being read.
pub open spec fn word_scan(s: Seq<char>) -> (Seq<Seq<char>>, Seq<char>)
    decreases s.len(),
{
    if s.len() == 0 {
        (seq![], seq![])
    } else {
        let (ws, cur) = word_scan(s.drop_last());
        let c = s.last();
        if white_space(c) {
            if cur.len() > 0 {
                (ws.push(cur), seq![])
            } else {
                (ws, cur)
            }
        } else {
            (ws, cur.push(c))
        }
    }
}

/// The maximal runs of non-white-space characters of `s`, in order
/// (`split_whitespace`).
pub open spec fn words(s: Seq<char>) -> Seq<Seq<char>> {
    let (ws, cur) = word_scan(s);
    if cur.len() > 0 {
        ws.push(cur)
    } else {
        ws
    }
}

fn split_words(text: &str) -> (r: Vec<Vec<char>>)
    ensures
        r@.map_values(|w: Vec<char>| w@) == words(text@),
{
    let v = chars_vec(text);
    let mut ws: Vec<Vec<char>> = Vec::new();
    let mut cur: Vec<char> = Vec::new();
    let mut i: usize = 0;
    assert(ws@.map_values(|w: Vec<char>| w@) =~= word_scan(v@.take(0)).0);
    while i < v.len()
        invariant
            v@ == text@,
            i <= v.len(),
            (ws@.map_values(|w: Vec<char>| w@), cur@) == word_scan(v@.take(i as int)),
        decreases v.len() - i,
    {
        let c = v[i];
        assert(v@.take(i + 1).drop_last() =~= v@.take(i as int));
        if is_white(c) {
            if cur.len() > 0 {
                let ghost before = ws@;
                let w = cur;
                ws.push(w);
                cur = Vec::new();
                assert(ws@.map_values(|w: Vec<char>| w@) =~= before.map_values(|w: Vec<char>| w@).push(w@));
            }
        } else {
            cur.push(c);
        }
        i += 1;
    }
    assert(v@.take(i as int) =~= text@);
    if cur.len() > 0 {
        let ghost before = ws@;
        let w = cur;
        ws.push(w);
        assert(ws@.map_values(|w: Vec<char>| w@) =~= before.map_values(|w: Vec<char>| w@).push(w@));
    }
    ws
}

// ---------------------------------------------------------------------------
// Wrapping.
// ---------------------------------------------------------------------------

/// `cur` followed by `w`, with a space between them unless `cur` is empty.
pub open spec fn extend_line(cur: Seq<char>, w: Seq<char>) -> Seq<char> {
    if cur.len() == 0 {
        w
    } else {
        cur + seq![' '] + w
    }
}

/// Wrapping state after the first `n` words: the finished lines, the line
/// being filled, and whether the line budget ran out.
pub open spec fn wrap_scan(ws: Seq<Seq<char>>, max_chars: nat, max_lines: nat, n: int) -> (Seq<Seq<char>>, Seq<char>, bool)
    decreases n,
{
    if n <= 0 {
        (seq![], seq![], false)
    } else {
        let (lines, cur, done) = wrap_scan(ws, max_chars, max_lines, n - 1);
        let w = ws[n - 1];
        if done {
            (lines, cur, done)
        } else {
            let cand = extend_line(cur, w);
            if cand.len() > max_chars && cur.len() > 0 {
                let full = lines.push(cur);
                if full.len() == max_lines {
                    (full.update(full.len() - 1, cur + "..."@), seq![], true)
                } else {
                    (full, w, false)
                }
            } else {
                (lines, cand, false)
            }
        }
    }
}

/// Greedy word wrap: words are added to a line while it stays within
/// `max_chars` characters (a single long word still gets a line of its
/// own); when `max_lines` lines are full, the last one gets "..." and the
/// rest is dropped. A budget of no lines gives no lines.
pub open spec fn wrap_spec(text: Seq<char>, max_chars: nat, max_lines: nat) -> Seq<Seq<char>> {
    let ws = words(text);
    let (lines, cur, done) = wrap_scan(ws, max_chars, max_lines, ws.len() as int);
    if max_lines == 0 {
        seq![]
    } else if !done && cur.len() > 0 && lines.len() < max_lines {
        lines.push(cur)
    } else {
        lines
    }
}

proof fn lemma_wrap_done_stays(ws: Seq<Seq<char>>, max_chars: nat, max_lines: nat, i: int, n: int)
    requires
        0 <= i <= n,
        wrap_scan(ws, max_chars, max_lines, i).2,
    ensures
        wrap_scan(ws, max_chars, max_lines, n) == wrap_scan(ws, max_chars, max_lines, i),
    decreases n - i,
{
    if n > i {
        lemma_wrap_done_stays(ws, max_chars, max_lines, i, n - 1);
    }
}

fn vec_to_string(v: &Vec<char>) -> (r: String)
    ensures
        r@ == v@,
{
    let mut s = String::new();
    push_range(&mut s, v, 0, v.len());
    assert(s@ =~= v@);
    s
}

/// Break `text` into lines of at most `max_chars` characters, up to
/// `max_lines` (none at all for a budget of 0). This counts characters
/// rather than measuring glyphs. The last line is ellipsized if the text
/// runs long.
pub fn wrap(text: &str, max_chars: usize, max_lines: usize) -> (r: Vec<String>)
    ensures
        r@.map_values(|s: String| s@) == wrap_spec(text@, max_chars as nat, max_lines as nat),
{
    if max_lines == 0 {
        let none: Vec<String> = Vec::new();
        assert(none@.map_values(|s: String| s@) =~= Seq::<Seq<char>>::empty());
        return none;
    }
    let ws = split_words(text);
    let ghost wv = ws@.map_values(|w: Vec<char>| w@);
    let ghost mc = max_chars as nat;
    let ghost ml = max_lines as nat;
    let mut lines: Vec<String> = Vec::new();
    let mut cur: Vec<char> = Vec::new();
    let mut i: usize = 0;
    assert(lines@.map_values(|s: String| s@) =~= Seq::<Seq<char>>::empty());
    while i < ws.len()
        invariant
            wv == ws@.map_values(|w: Vec<char>| w@),
            wv == words(text@),
            mc == max_chars as nat,
            ml == max_lines as nat,
            i <= ws.len(),
            (lines@.map_values(|s: String| s@), cur@, false) == wrap_scan(wv, mc, ml, i as int),
        decreases ws.len() - i,
    {
        let word = &ws[i];
        assert(word@ == wv[i as int]);
        let mut cand: Vec<char> = Vec::new();
        if cur.len() == 0 {
            let mut k: usize = 0;
            while k < word.len()
                invariant
                    k <= word.len(),
                    cand@ == word@.take(k as int),
                decreases word.len() - k,
            {
                cand.push(word[k]);
                assert(word@.take(k + 1) =~= word@.take(k as int).push(word@[k as int]));
                k += 1;
            }
            assert(word@.take(word.len() as int) =~= word@);
        } else {
            let mut k: usize = 0;
            while k < cur.len()
                invariant
                    k <= cur.len(),
                    cand@ == cur@.take(k as int),
                decreases cur.len() - k,
            {
                cand.push(cur[k]);
                assert(cur@.take(k + 1) =~= cur@.take(k as int).push(cur@[k as int]));
                k += 1;
            }
            cand.push(' ');
            let ghost base = cand@;
            let mut k: usize = 0;
            while k < word.len()
                invariant
                    k <= word.len(),
                    cand@ == base + word@.take(k as int),
                decreases word.len() - k,
            {
                cand.push(word[k]);
                assert(word@.take(k + 1) =~= word@.take(k as int).push(word@[k as int]));
                k += 1;
            }
            assert(word@.take(word.len() as int) =~= word@);
            assert(cand@ =~= cur@ + seq![' '] + word@);
        }
        assert(cand@ == extend_line(cur@, word@));
        let ghost before = lines@.map_values(|s: String| s@);
        if cand.len() > max_chars && cur.len() > 0 {
            let line = vec_to_string(&cur);
            lines.push(line);
            assert(lines@.map_values(|s: String| s@) =~= before.push(cur@));
            if lines.len() == max_lines {
                let last = lines.pop();
                match last {
                    Some(l) => {
                        let mut l2 = l;
                        l2.append("...");
                        lines.push(l2);
                    },
                    None => {},
                }
                proof {
                    let full = before.push(cur@);
                    assert(lines@.map_values(|s: String| s@) =~= full.update(full.len() - 1, cur@ + "..."@));
                    lemma_wrap_done_stays(wv, mc, ml, i + 1, wv.len() as int);
                }
                return lines;
            }
            let mut next: Vec<char> = Vec::new();
            let mut k: usize = 0;
            while k < word.len()
                invariant
                    k <= word.len(),
                    next@ == word@.take(k as int),
                decreases word.len() - k,
            {
                next.push(word[k]);
                assert(word@.take(k + 1) =~= word@.take(k as int).push(word@[k as int]));
                k += 1;
            }
            assert(word@.take(word.len() as int) =~= word@);
            cur = next;
        } else {
            cur = cand;
        }
        i += 1;
    }
    if cur.len() > 0 && lines.len() < max_lines {
        let ghost before = lines@.map_values(|s: String| s@);
        lines.push(vec_to_string(&cur));
        assert(lines@.map_values(|s: String| s@) =~= before.push(cur@));
    }
    lines
}

} // verus!

verus! {

proof fn lemma_wrap_scan_budget(ws: Seq<Seq<char>>, max_chars: nat, max_lines: nat, n: int)
    requires
        max_lines >= 1,
    ensures
        wrap_scan(ws, max_chars, max_lines, n).2 ==> wrap_scan(ws, max_chars, max_lines, n).0.len()
            == max_lines,
        !wrap_scan(ws, max_chars, max_lines, n).2 ==> wrap_scan(ws, max_chars, max_lines, n).0.len()
            < max_lines,
    decreases n,
{
    if n > 0 {
        lemma_wrap_scan_budget(ws, max_chars, max_lines, n - 1);
    }
}

/// Law: a card headline never takes more than `max_lines` lines.
pub proof fn law_wrap_line_budget(text: Seq<char>, max_chars: nat, max_lines: nat)
    ensures
        wrap_spec(text, max_chars, max_lines).len() <= max_lines,
{
    if max_lines >= 1 {
        let ws = words(text);
        lemma_wrap_scan_budget(ws, max_chars, max_lines, ws.len() as int);
    }
}

proof fn lemma_svg_char_markup_free(c: char)
    ensures
        forall|i: int|
            0 <= i < svg_esc_char(c).len() ==> #[trigger] svg_esc_char(c)[i] != '<'
                && svg_esc_char(c)[i] != '>' && svg_esc_char(c)[i] != '"' && svg_esc_char(c)[i]
                != '\'',
{
    reveal_strlit("&amp;");
    reveal_strlit("&lt;");
    reveal_strlit("&gt;");
    reveal_strlit("&quot;");
    reveal_strlit("&apos;");
}

/// Law: SVG-escaped text never holds `<`, `>`, `"` or `'`.
pub proof fn law_svg_escaped_is_markup_free(s: Seq<char>)
    ensures
        forall|i: int|
            0 <= i < svg_escaped(s).len() ==> #[trigger] svg_escaped(s)[i] != '<' && svg_escaped(
                s,
            )[i] != '>' && svg_escaped(s)[i] != '"' && svg_escaped(s)[i] != '\'',
    decreases s.len(),
{
    if s.len() > 0 {
        law_svg_escaped_is_markup_free(s.drop_last());
        lemma_svg_char_markup_free(s.last());
        let a = svg_escaped(s.drop_last());
        let b = svg_esc_char(s.last());
        assert forall|i: int| 0 <= i < (a + b).len() implies #[trigger] (a + b)[i] != '<' && (a
            + b)[i] != '>' && (a + b)[i] != '"' && (a + b)[i] != '\'' by {
            if i < a.len() {
                assert((a + b)[i] == a[i]);
            } else {
                assert((a + b)[i] == b[i - a.len()]);
            }
        }
    }
}

} // verus!

verus! {

/// A line that keeps to the width: at most `max_chars` characters, or a
/// single word of the text that is too long to share a line.
pub open spec fn fits(ws: Seq<Seq<char>>, max_chars: nat, l: Seq<char>) -> bool {
    l.len() <= max_chars || ws.contains(l)
}

proof fn lemma_wrap_scan_fits(ws: Seq<Seq<char>>, max_chars: nat, max_lines: nat, n: int)
    requires
        n <= ws.len(),
    ensures
        ({
            let (lines, cur, done) = wrap_scan(ws, max_chars, max_lines, n);
            &&& cur.len() == 0 || fits(ws, max_chars, cur)
            &&& !done ==> forall|j: int| 0 <= j < lines.len() ==> fits(ws, max_chars, #[trigger] lines[j])
            &&& done ==> lines.len() >= 1 && (forall|j: int|
                0 <= j < lines.len() - 1 ==> fits(ws, max_chars, #[trigger] lines[j]))
                && exists|b: Seq<char>| fits(ws, max_chars, b) && lines.last() == b + "..."@
        }),
    decreases n,
{
    if n > 0 {
        lemma_wrap_scan_fits(ws, max_chars, max_lines, n - 1);
        let (lines, cur, done) = wrap_scan(ws, max_chars, max_lines, n - 1);
        let w = ws[n - 1];
        assert(ws.contains(w));
        if !done {
            let cand = extend_line(cur, w);
            if cand.len() > max_chars && cur.len() > 0 {
                let full = lines.push(cur);
                assert(forall|j: int| 0 <= j < full.len() ==> fits(ws, max_chars, #[trigger] full[j]));
                if full.len() == max_lines {
                    let upd = full.update(full.len() - 1, cur + "..."@);
                    assert(upd.last() == cur + "..."@);
                    assert(forall|j: int| 0 <= j < upd.len() - 1 ==> upd[j] == full[j]);
                }
            }
        }
    }
}

/// Law: lines keep to the width. Every line of a wrapped headline has at
/// most `max_chars` characters unless it is a single word that is longer on
/// its own; only the last line may instead be such a line followed by
/// "...", when the text ran past the line budget.
pub proof fn law_wrap_lines_fit(text: Seq<char>, max_chars: nat, max_lines: nat)
    ensures
        ({
            let r = wrap_spec(text, max_chars, max_lines);
            let ws = words(text);
            &&& forall|j: int| 0 <= j < r.len() - 1 ==> fits(ws, max_chars, #[trigger] r[j])
            &&& r.len() > 0 ==> fits(ws, max_chars, r.last()) || exists|b: Seq<char>|
                fits(ws, max_chars, b) && r.last() == b + "..."@
        }),
{
    let ws = words(text);
    lemma_wrap_scan_fits(ws, max_chars, max_lines, ws.len() as int);
    let (lines, cur, done) = wrap_scan(ws, max_chars, max_lines, ws.len() as int);
    let r = wrap_spec(text, max_chars, max_lines);
    if max_lines > 0 && !done && cur.len() > 0 && lines.len() < max_lines {
        assert(r == lines.push(cur));
        assert(forall|j: int| 0 <= j < r.len() ==> fits(ws, max_chars, #[trigger] r[j]));
    }
}

} // verus!

verus! {

// ---------------------------------------------------------------------------
// Words and lines.
// ---------------------------------------------------------------------------

/// Lines joined back together with single spaces.
pub open spec fn join_lines(ls: Seq<Seq<char>>) -> Seq<char>
    decreases ls.len(),
{
    if ls.len() == 0 {
        seq![]
    } else if ls.len() == 1 {
        ls[0]
    } else {
        join_lines(ls.drop_last()) + seq![' '] + ls.last()
    }
}

/// Whether some character of `s` is not white space.
pub open spec fn has_visible(s: Seq<char>) -> bool {
    exists|i: int| 0 <= i < s.len() && !white_space(#[trigger] s[i])
}

proof fn lemma_word_scan(s: Seq<char>)
    ensures
        forall|j: int| 0 <= j < word_scan(s).0.len() ==> (#[trigger] word_scan(s).0[j]).len() > 0,
        has_visible(s) <==> (word_scan(s).0.len() > 0 || word_scan(s).1.len() > 0),
    decreases s.len(),
{
    if s.len() > 0 {
        let t = s.drop_last();
        lemma_word_scan(t);
        let c = s.last();
        if has_visible(t) {
            let i = choose|i: int| 0 <= i < t.len() && !white_space(#[trigger] t[i]);
            assert(s[i] == t[i]);
        }
        if has_visible(s) {
            let i = choose|i: int| 0 <= i < s.len() && !white_space(#[trigger] s[i]);
            if i < t.len() {
                assert(t[i] == s[i]);
            }
        }
        if !white_space(c) {
            assert(s[s.len() - 1] == c);
        }
    }
}

/// Law: the words of a text are non-empty, and there is at least one
/// exactly when the text has a character that is not white space.
pub proof fn law_words(text: Seq<char>)
    ensures
        forall|j: int| 0 <= j < words(text).len() ==> (#[trigger] words(text)[j]).len() > 0,
        has_visible(text) <==> words(text).len() > 0,
{
    lemma_word_scan(text);
}

/// The lines so far with the line being filled, if it has anything in it.
pub open spec fn with_current(lines: Seq<Seq<char>>, cur: Seq<char>) -> Seq<Seq<char>> {
    if cur.len() > 0 {
        lines.push(cur)
    } else {
        lines
    }
}

proof fn lemma_join_push(ls: Seq<Seq<char>>, x: Seq<char>)
    ensures
        join_lines(ls.push(x)) == if ls.len() == 0 {
            x
        } else {
            join_lines(ls) + seq![' '] + x
        },
{
    assert(ls.push(x).drop_last() =~= ls);
}

proof fn lemma_join_extend(ls: Seq<Seq<char>>, cur: Seq<char>, w: Seq<char>)
    ensures
        join_lines(ls.push(cur + seq![' '] + w)) == join_lines(ls.push(cur)) + seq![' '] + w,
{
    lemma_join_push(ls, cur + seq![' '] + w);
    lemma_join_push(ls, cur);
    if ls.len() > 0 {
        assert(join_lines(ls) + seq![' '] + (cur + seq![' '] + w) =~= join_lines(ls) + seq![' ']
            + cur + seq![' '] + w);
    }
}

/// Lines put back together: `done` turns the budget-ending "..." back into
/// the line it was appended to.
pub open spec fn scan_invariant(ws: Seq<Seq<char>>, max_lines: nat, n: int, lines: Seq<Seq<char>>, cur: Seq<char>, done: bool) -> bool {
    &&& forall|j: int| 0 <= j < lines.len() ==> (#[trigger] lines[j]).len() > 0
    &&& !done ==> (cur.len() == 0 <==> n == 0) && (n == 0 ==> lines.len() == 0)
    &&& !done ==> join_lines(with_current(lines, cur)) == join_lines(ws.take(n))
    &&& done ==> lines.len() >= 1 && exists|b: Seq<char>, k: int|
        #![trigger lines.update(lines.len() - 1, b), ws.take(k)]
        b.len() > 0 && lines.last() == b + "..."@ && 0 <= k < n && join_lines(
            lines.update(lines.len() - 1, b),
        ) == join_lines(ws.take(k))
}

proof fn lemma_wrap_scan_rejoin(ws: Seq<Seq<char>>, max_chars: nat, max_lines: nat, n: int)
    requires
        0 <= n <= ws.len(),
        forall|j: int| 0 <= j < ws.len() ==> (#[trigger] ws[j]).len() > 0,
    ensures
        ({
            let (lines, cur, done) = wrap_scan(ws, max_chars, max_lines, n);
            scan_invariant(ws, max_lines, n, lines, cur, done)
        }),
    decreases n,
{
    reveal_strlit("...");
    if n == 0 {
        assert(ws.take(0) =~= Seq::<Seq<char>>::empty());
    } else {
        lemma_wrap_scan_rejoin(ws, max_chars, max_lines, n - 1);
        let (lines, cur, done) = wrap_scan(ws, max_chars, max_lines, n - 1);
        let w = ws[n - 1];
        assert(w.len() > 0);
        assert(ws.take(n) =~= ws.take(n - 1).push(w));
        lemma_join_push(ws.take(n - 1), w);
        if done {
            let (b, k) = choose|b: Seq<char>, k: int|
                #![trigger lines.update(lines.len() - 1, b), ws.take(k)]
                b.len() > 0 && lines.last() == b + "..."@ && 0 <= k < n - 1 && join_lines(
                    lines.update(lines.len() - 1, b),
                ) == join_lines(ws.take(k));
            assert(0 <= k < n);
        } else {
            let cand = extend_line(cur, w);
            if cand.len() > max_chars && cur.len() > 0 {
                let full = lines.push(cur);
                assert(with_current(lines, cur) == full);
                if full.len() == max_lines {
                    let upd = full.update(full.len() - 1, cur + "..."@);
                    assert(upd.update(upd.len() - 1, cur) =~= full);
                    assert(upd.last() == cur + "..."@);
                    assert forall|j: int| 0 <= j < upd.len() implies (#[trigger] upd[j]).len() > 0 by {
                        if j < lines.len() {
                            assert(upd[j] == lines[j]);
                        }
                    }
                    assert(join_lines(upd.update(upd.len() - 1, cur)) == join_lines(ws.take(n - 1)));
                } else {
                    lemma_join_push(full, w);
                    assert(with_current(full, w) == full.push(w));
                    assert forall|j: int| 0 <= j < full.len() implies (#[trigger] full[j]).len() > 0 by {
                        if j < lines.len() {
                            assert(full[j] == lines[j]);
                        }
                    }
                }
            } else {
                if cur.len() == 0 {
                    assert(cand == w);
                    assert(lines.len() == 0);
                    assert(with_current(lines, cand) == lines.push(w));
                    assert(ws.take(n - 1) =~= Seq::<Seq<char>>::empty());
                } else {
                    lemma_join_extend(lines, cur, w);
                    assert(with_current(lines, cand) == lines.push(cur + seq![' '] + w));
                    assert(n - 1 > 0);
                }
            }
        }
    }
}

/// Law: wrapping keeps the text. Every line is non-empty; joined back with
/// single spaces the lines give the words of the text joined the same way,
/// unless the line budget ran out: then the last line ends in "..." and,
/// without it, the lines rejoin to a shorter run of whole words from the
/// start of the text.
pub proof fn law_wrap_keeps_words(text: Seq<char>, max_chars: nat, max_lines: nat)
    requires
        max_lines >= 1,
    ensures
        forall|j: int|
            0 <= j < wrap_spec(text, max_chars, max_lines).len() ==> (#[trigger] wrap_spec(
                text,
                max_chars,
                max_lines,
            )[j]).len() > 0,
        ({
            let r = wrap_spec(text, max_chars, max_lines);
            let ws = words(text);
            ||| join_lines(r) == join_lines(ws)
            ||| r.len() > 0 && exists|b: Seq<char>, k: int|
                #![trigger r.update(r.len() - 1, b), ws.take(k)]
                r.last() == b + "..."@ && 0 <= k < ws.len() && join_lines(r.update(r.len() - 1, b))
                    == join_lines(ws.take(k))
        }),
{
    let ws = words(text);
    law_words(text);
    lemma_wrap_scan_rejoin(ws, max_chars, max_lines, ws.len() as int);
    lemma_wrap_scan_budget(ws, max_chars, max_lines, ws.len() as int);
    let (lines, cur, done) = wrap_scan(ws, max_chars, max_lines, ws.len() as int);
    assert(ws.take(ws.len() as int) =~= ws);
    let r = wrap_spec(text, max_chars, max_lines);
    if !done {
        assert(r == with_current(lines, cur));
        if cur.len() > 0 {
            assert forall|j: int| 0 <= j < r.len() implies (#[trigger] r[j]).len() > 0 by {
                if j < lines.len() {
                    assert(r[j] == lines[j]);
                }
            }
        }
    }
}

/// Law: a headline with anything visible in it gets at least one line
/// (given a budget of at least one line).
pub proof fn law_wrap_visible_text_has_a_line(text: Seq<char>, max_chars: nat, max_lines: nat)
    requires
        max_lines >= 1,
        has_visible(text),
    ensures
        wrap_spec(text, max_chars, max_lines).len() >= 1,
{
    let ws = words(text);
    law_words(text);
    lemma_wrap_scan_rejoin(ws, max_chars, max_lines, ws.len() as int);
    lemma_wrap_scan_budget(ws, max_chars, max_lines, ws.len() as int);
}

/// `b` starts with a word of the text that does not fit on line `a`.
pub open spec fn next_word_overflows(ws: Seq<Seq<char>>, max_chars: nat, a: Seq<char>, b: Seq<char>) -> bool {
    exists|w: Seq<char>| #[trigger] ws.contains(w) && w.is_prefix_of(b) && a.len() + 1 + w.len() > max_chars
}

proof fn lemma_overflow_extends(ws: Seq<Seq<char>>, max_chars: nat, a: Seq<char>, b: Seq<char>, c: Seq<char>)
    requires
        next_word_overflows(ws, max_chars, a, b),
        b.is_prefix_of(c),
    ensures
        next_word_overflows(ws, max_chars, a, c),
{
    let w = choose|w: Seq<char>| #[trigger] ws.contains(w) && w.is_prefix_of(b) && a.len() + 1 + w.len() > max_chars;
    assert(c.subrange(0, w.len() as int) =~= b.subrange(0, w.len() as int));
}

proof fn lemma_wrap_scan_greedy(ws: Seq<Seq<char>>, max_chars: nat, max_lines: nat, n: int)
    requires
        0 <= n <= ws.len(),
        forall|j: int| 0 <= j < ws.len() ==> (#[trigger] ws[j]).len() > 0,
    ensures
        ({
            let (lines, cur, done) = wrap_scan(ws, max_chars, max_lines, n);
            &&& forall|j: int|
                0 <= j < lines.len() - 1 ==> next_word_overflows(ws, max_chars, #[trigger] lines[j], lines[j + 1])
            &&& !done && lines.len() > 0 && cur.len() > 0 ==> next_word_overflows(ws, max_chars, lines.last(), cur)
        }),
    decreases n,
{
    if n > 0 {
        lemma_wrap_scan_greedy(ws, max_chars, max_lines, n - 1);
        lemma_wrap_scan_rejoin(ws, max_chars, max_lines, n - 1);
        let (lines, cur, done) = wrap_scan(ws, max_chars, max_lines, n - 1);
        let w = ws[n - 1];
        assert(ws.contains(w));
        if !done {
            let cand = extend_line(cur, w);
            if cand.len() > max_chars && cur.len() > 0 {
                let full = lines.push(cur);
                assert(w.is_prefix_of(w)) by {
                    assert(w.subrange(0, w.len() as int) =~= w);
                }
                assert(cand == cur + seq![' '] + w);
                assert(next_word_overflows(ws, max_chars, cur, w));
                if full.len() == max_lines {
                    let upd = full.update(full.len() - 1, cur + "..."@);
                    assert(cur.is_prefix_of(cur + "..."@)) by {
                        assert((cur + "..."@).subrange(0, cur.len() as int) =~= cur);
                    }
                    if lines.len() > 0 {
                        lemma_overflow_extends(ws, max_chars, lines.last(), cur, cur + "..."@);
                    }
                    assert forall|j: int| 0 <= j < upd.len() - 1 implies next_word_overflows(
                        ws,
                        max_chars,
                        #[trigger] upd[j],
                        upd[j + 1],
                    ) by {
                        assert(upd[j] == lines[j]);
                        if j + 1 < lines.len() {
                            assert(upd[j + 1] == lines[j + 1]);
                        }
                    }
                } else {
                    assert forall|j: int| 0 <= j < full.len() - 1 implies next_word_overflows(
                        ws,
                        max_chars,
                        #[trigger] full[j],
                        full[j + 1],
                    ) by {
                        assert(full[j] == lines[j]);
                        if j + 1 < lines.len() {
                            assert(full[j + 1] == lines[j + 1]);
                        }
                    }
                }
            } else if cur.len() > 0 && lines.len() > 0 {
                assert(cand == cur + seq![' '] + w);
                assert(cur.is_prefix_of(cand)) by {
                    assert(cand.subrange(0, cur.len() as int) =~= cur);
                }
                lemma_overflow_extends(ws, max_chars, lines.last(), cur, cand);
            }
        }
    }
}

/// Law: lines are filled greedily. Each line but the last is followed by a
/// line that starts with a word of the text which would not have fitted
/// after it (one space plus the word would pass `max_chars`).
pub proof fn law_wrap_is_greedy(text: Seq<char>, max_chars: nat, max_lines: nat)
    ensures
        ({
            let r = wrap_spec(text, max_chars, max_lines);
            forall|j: int| 0 <= j < r.len() - 1 ==> next_word_overflows(words(text), max_chars, #[trigger] r[j], r[j + 1])
        }),
{
    let ws = words(text);
    law_words(text);
    lemma_wrap_scan_greedy(ws, max_chars, max_lines, ws.len() as int);
    let (lines, cur, done) = wrap_scan(ws, max_chars, max_lines, ws.len() as int);
    let r = wrap_spec(text, max_chars, max_lines);
    if max_lines > 0 && !done && cur.len() > 0 && lines.len() < max_lines {
        assert(r == lines.push(cur));
        assert forall|j: int| 0 <= j < r.len() - 1 implies next_word_overflows(ws, max_chars, #[trigger] r[j], r[j + 1]) by {
            assert(r[j] == lines[j]);
            if j + 1 < lines.len() {
                assert(r[j + 1] == lines[j + 1]);
            }
        }
    }
}

} // verus!
