use site_gen::og;
use site_gen::render::{esc, esc_code, slugify};

#[test]
fn esc_replaces_markup_characters() {
    assert_eq!(esc("<a href='x'>&\"</a>"), "&lt;a href=&#39;x&#39;&gt;&amp;&quot;&lt;/a&gt;");
}

#[test]
fn esc_keeps_plain_text() {
    assert_eq!(esc("Google Summer of Code – ₹ 2026"), "Google Summer of Code – ₹ 2026");
    assert_eq!(esc(""), "");
}

#[test]
fn esc_code_turns_backtick_pairs_into_labels() {
    assert_eq!(
        esc_code("look for `good first issue` or `help wanted`"),
        "look for <code class=\"code-label\">good first issue</code> or <code class=\"code-label\">help wanted</code>"
    );
}

#[test]
fn esc_code_escapes_inside_spans() {
    assert_eq!(
        esc_code("`<script>`"),
        "<code class=\"code-label\">&lt;script&gt;</code>"
    );
}

#[test]
fn esc_code_leaves_unmatched_backtick() {
    assert_eq!(esc_code("a `b` c `d"), "a <code class=\"code-label\">b</code> c `d");
    assert_eq!(esc_code("one `tick"), "one `tick");
    assert_eq!(esc_code("plain & simple"), "plain &amp; simple");
}

#[test]
fn esc_code_empty_span() {
    assert_eq!(esc_code("``"), "<code class=\"code-label\"></code>");
}

#[test]
fn slugify_lowercases_and_dashes() {
    assert_eq!(slugify("Hello, World!"), "hello-world");
    assert_eq!(slugify("beginner-friendly"), "beginner-friendly");
    assert_eq!(slugify("  --Rust & Go--  "), "rust-go");
    assert_eq!(slugify("September"), "september");
}

#[test]
fn slugify_edge_cases() {
    assert_eq!(slugify(""), "");
    assert_eq!(slugify("---"), "");
    assert_eq!(slugify("Ünïcode 2026"), "n-code-2026");
}

#[test]
fn svg_esc_uses_apos() {
    assert_eq!(og::esc("it's <b>&\""), "it&apos;s &lt;b&gt;&amp;&quot;");
}

#[test]
fn wrap_fills_lines_greedily() {
    assert_eq!(
        og::wrap("Open source programs for 2026", 24, 3),
        vec!["Open source programs for".to_string(), "2026".to_string()]
    );
}

#[test]
fn wrap_ellipsizes_when_out_of_lines() {
    assert_eq!(
        og::wrap("The quick brown fox jumps over the lazy dog", 10, 2),
        vec!["The quick".to_string(), "brown fox...".to_string()]
    );
}

#[test]
fn wrap_long_word_gets_own_line() {
    assert_eq!(
        og::wrap("a supercalifragilistic word", 5, 3),
        vec!["a".to_string(), "supercalifragilistic".to_string(), "word".to_string()]
    );
}

#[test]
fn wrap_collapses_whitespace() {
    assert_eq!(og::wrap("  one \t two\n\nthree  ", 100, 1), vec!["one two three".to_string()]);
    assert!(og::wrap("   ", 10, 2).is_empty());
}

#[test]
fn wrap_respects_line_budget() {
    let lines = og::wrap("aa bb cc dd ee ff gg", 2, 3);
    assert_eq!(lines.len(), 3);
    assert_eq!(lines, vec!["aa".to_string(), "bb".to_string(), "cc...".to_string()]);
}
