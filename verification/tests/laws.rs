use site_gen::model::Stipend;
use site_gen::og;
use site_gen::render::{esc, esc_code, slugify};

#[test]
fn escaped_text_has_no_markup_characters() {
    let out = esc("<script>alert('x' + \"y\")</script> & more");
    assert!(!out.contains('<') && !out.contains('>') && !out.contains('"') && !out.contains('\''));
}

#[test]
fn svg_escaped_text_has_no_markup_characters() {
    let out = og::esc("<tspan a='1' b=\"2\">&</tspan>");
    assert!(!out.contains('<') && !out.contains('>') && !out.contains('"') && !out.contains('\''));
}

#[test]
fn esc_code_only_produces_code_tags() {
    let out = esc_code("`<img src=x>` then <b>bold</b> and `</code><script>`");
    let open = "<code class=\"code-label\">";
    let close = "</code>";
    for (i, _) in out.match_indices('<') {
        let rest = &out[i..];
        assert!(rest.starts_with(open) || rest.starts_with(close), "stray tag at {i}: {rest}");
    }
    assert_eq!(out.matches(open).count(), 2);
    assert_eq!(out.matches(close).count(), 2);
}

#[test]
fn esc_code_without_backticks_is_esc() {
    for s in ["", "plain", "a < b & c", "quote \" and ' apostrophe"] {
        assert_eq!(esc_code(s), esc(s));
    }
}

#[test]
fn slugs_are_well_formed() {
    for s in ["  Hello -- World  ", "---", "C++ & Rust!", "Ünïcode", "a__b", "UPPER lower 123"] {
        let slug = slugify(s);
        assert!(slug.chars().all(|c| c.is_ascii_lowercase() || c.is_ascii_digit() || c == '-'));
        assert!(!slug.starts_with('-') && !slug.ends_with('-'));
        assert!(!slug.contains("--"));
    }
}

#[test]
fn grouping_only_inserts_commas() {
    for (n, cur) in [(0u64, "INR"), (999, "INR"), (1000, "USD"), (10000000, "INR"), (1234567, "USD"), (u64::MAX, "INR")] {
        let s = Stipend { min: Some(n), max: Some(n), currency: Some(cur.to_string()), note: None, unpaid: false };
        let shown = s.display();
        let digits: String = shown.chars().filter(|c| c.is_ascii_digit()).collect();
        let stripped: String = shown.chars().skip(1).filter(|c| *c != ',').collect();
        assert_eq!(digits, n.to_string());
        assert_eq!(stripped, n.to_string());
    }
}

#[test]
fn wrap_never_exceeds_line_budget() {
    let text = "one two three four five six seven eight nine ten eleven twelve";
    for max_lines in 0..5 {
        for max_chars in 0..20 {
            assert!(og::wrap(text, max_chars, max_lines).len() <= max_lines);
        }
    }
}

#[test]
fn wrapped_lines_keep_to_width() {
    let text = "Open source programs and internships for twenty twenty-six everywhere";
    let words: Vec<&str> = text.split_whitespace().collect();
    for max_chars in 5..30 {
        let lines = og::wrap(text, max_chars, 3);
        for (i, l) in lines.iter().enumerate() {
            let base = if i + 1 == lines.len() && l.ends_with("...") && l.chars().count() > max_chars {
                &l[..l.len() - 3]
            } else {
                l.as_str()
            };
            assert!(base.chars().count() <= max_chars || words.contains(&base), "{max_chars}: {l}");
        }
    }
}

#[test]
fn amount_or_prose() {
    let s = Stipend { min: Some(10), max: Some(20), currency: Some("EUR".to_string()), note: Some("n".to_string()), unpaid: false };
    assert!(s.has_amount() && s.display().starts_with('€'));
    let s = Stipend { min: None, max: Some(20), currency: Some("EUR".to_string()), note: Some("n".to_string()), unpaid: false };
    assert!(!s.has_amount());
    assert_eq!(s.display(), "n");
}

#[test]
fn zero_line_budget_gives_no_lines() {
    assert!(og::wrap("a b c", 1, 0).is_empty());
    assert!(og::wrap("Open source programs", 24, 0).is_empty());
}

#[test]
fn white_space_matches_std() {
    for u in 0..=0x10FFFFu32 {
        if let Some(c) = char::from_u32(u) {
            assert_eq!(site_gen::strings::is_white(c), c.is_whitespace(), "U+{u:04X}");
        }
    }
    assert!(!site_gen::strings::is_blank("A"));
    assert!(site_gen::strings::is_blank(" \t\n\u{3000}"));
    assert!(site_gen::strings::is_blank(""));
}

fn unescape(t: &str) -> String {
    t.replace("&lt;", "<").replace("&gt;", ">").replace("&quot;", "\"").replace("&#39;", "'").replace("&amp;", "&")
}

#[test]
fn escaping_distributes_is_clean_and_undoes() {
    let samples = ["", "plain", "a < b", "&amp; already", "it's \"quoted\"", "&lt;"];
    for a in samples {
        assert_eq!(unescape(&esc(a)), a);
        for b in samples {
            assert_eq!(esc(&format!("{a}{b}")), format!("{}{}", esc(a), esc(b)));
        }
    }
    assert_eq!(esc("clean text 123"), "clean text 123");
}

#[test]
fn esc_code_tags_stand_for_backticks() {
    for s in ["`a` and `b`", "one `tick", "``", "x `<y>` `z", "no ticks"] {
        let out = esc_code(s);
        let back = out.replace("<code class=\"code-label\">", "`").replace("</code>", "`");
        assert_eq!(back, esc(s));
        assert_eq!(out.matches("<code class=\"code-label\">").count(), s.matches('`').count() / 2);
        assert_eq!(out.matches('<').count(), 2 * (s.matches('`').count() / 2));
    }
}

#[test]
fn slug_keeps_alnum_and_is_idempotent() {
    for s in ["Hello, World!", "--C++ 2026--", "Ünïcode", "", "already-a-slug"] {
        let t = slugify(s);
        let kept: String = s.chars().filter(|c| c.is_ascii_alphanumeric()).map(|c| c.to_ascii_lowercase()).collect();
        assert_eq!(t.replace('-', ""), kept);
        assert_eq!(slugify(&t), t);
    }
}

#[test]
fn digit_group_sizes() {
    for n in [0u64, 7, 42, 999, 1000, 12345, 123456, 1234567, 10000000, u64::MAX] {
        for (cur, indian) in [("USD", false), ("INR", true)] {
            let s = Stipend { min: Some(n), max: Some(n), currency: Some(cur.to_string()), note: None, unpaid: false };
            let shown = s.display();
            let g: String = shown.chars().skip(1).collect();
            let parts: Vec<&str> = g.split(',').collect();
            assert_eq!(parts.len() == 1, n < 1000);
            let last = parts.len() - 1;
            for (i, p) in parts.iter().enumerate() {
                if i == 0 {
                    assert!(!p.is_empty() && p.len() <= if indian && last > 0 { 2 } else { 3 }, "{g}");
                } else if i == last || !indian {
                    assert_eq!(p.len(), 3, "{g}");
                } else {
                    assert_eq!(p.len(), 2, "{g}");
                }
            }
        }
    }
}

#[test]
fn wrapped_lines_rejoin_to_the_words() {
    let text = "  The quick   brown fox jumps over\tthe lazy dog  ";
    let words: Vec<&str> = text.split_whitespace().collect();
    let lines = og::wrap(text, 12, 10);
    assert!(lines.iter().all(|l| !l.is_empty()));
    assert_eq!(lines.join(" "), words.join(" "));
    assert_eq!(lines, vec!["The quick", "brown fox", "jumps over", "the lazy dog"]);
}

#[test]
fn truncated_wrap_keeps_a_prefix_of_whole_words() {
    let text = "one two three four five six seven eight nine ten";
    let words: Vec<&str> = text.split_whitespace().collect();
    let lines = og::wrap(text, 9, 2);
    assert_eq!(lines.len(), 2);
    let last = lines.last().unwrap();
    assert!(last.ends_with("..."));
    let mut kept = lines.clone();
    let n = kept.len() - 1;
    kept[n] = last.trim_end_matches("...").to_string();
    let rejoined = kept.join(" ");
    let k = rejoined.split(' ').count();
    assert!(k < words.len());
    assert_eq!(rejoined, words[..k].join(" "));
}

#[test]
fn each_wrapped_line_is_full() {
    let text = "aa bb cc dd ee ff gg hh ii jj";
    let lines = og::wrap(text, 8, 10);
    for pair in lines.windows(2) {
        let next_word = pair[1].split(' ').next().unwrap();
        assert!(pair[0].chars().count() + 1 + next_word.chars().count() > 8);
    }
    assert_eq!(lines, vec!["aa bb cc", "dd ee ff", "gg hh ii", "jj"]);
}

#[test]
fn visible_headline_gets_a_line() {
    for text in ["x", "  Hello  ", "Averyveryverylongsingleword", "\u{3000}a\u{3000}"] {
        assert!(!og::wrap(text, 24, 3).is_empty());
    }
    for text in ["", "   ", "\t\n\u{a0}"] {
        assert!(og::wrap(text, 24, 3).is_empty());
    }
}
