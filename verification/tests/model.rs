use site_gen::model::{Program, Stipend};

fn stipend(min: Option<u64>, max: Option<u64>, currency: Option<&str>, note: Option<&str>, unpaid: bool) -> Stipend {
    Stipend {
        min,
        max,
        currency: currency.map(|s| s.to_string()),
        note: note.map(|s| s.to_string()),
        unpaid,
    }
}

fn program(name: &str, tags: &[&str], stipend: Option<Stipend>) -> Program {
    Program {
        name: name.to_string(),
        short_name: None,
        url: "https://example.org".to_string(),
        org: "Org".to_string(),
        timeline: None,
        timeline_year: None,
        stipend,
        eligibility: None,
        caveat: None,
        tags: tags.iter().map(|t| t.to_string()).collect(),
        rewards: None,
    }
}

#[test]
fn display_range_in_dollars() {
    let s = stipend(Some(1500), Some(6600), Some("USD"), None, false);
    assert_eq!(s.display(), "$1,500 - $6,600");
    assert!(s.has_amount());
}

#[test]
fn display_single_amount_indian_grouping() {
    let s = stipend(Some(100000), Some(100000), Some("INR"), None, false);
    assert_eq!(s.display(), "₹1,00,000");
    let s = stipend(Some(10000000), Some(12345678), Some("INR"), None, false);
    assert_eq!(s.display(), "₹1,00,00,000 - ₹1,23,45,678");
    let s = stipend(Some(999), Some(1000), Some("INR"), None, false);
    assert_eq!(s.display(), "₹999 - ₹1,000");
}

#[test]
fn display_western_grouping_and_euro() {
    let s = stipend(Some(3000), Some(1234567), Some("EUR"), None, false);
    assert_eq!(s.display(), "€3,000 - €1,234,567");
    let s = stipend(Some(0), Some(0), Some("GBP"), None, false);
    assert_eq!(s.display(), "$0");
    let s = stipend(Some(100), Some(100000), None, None, false);
    assert_eq!(s.display(), "$100 - $100,000");
    let s = stipend(Some(u64::MAX), Some(u64::MAX), Some("USD"), None, false);
    assert_eq!(s.display(), "$18,446,744,073,709,551,615");
}

#[test]
fn display_falls_back_to_note_or_word() {
    let s = stipend(Some(1500), None, Some("USD"), Some("Varies by project"), false);
    assert_eq!(s.display(), "Varies by project");
    assert!(!s.has_amount());
    assert_eq!(s.sub_note(), None);
    let s = stipend(None, None, None, None, true);
    assert_eq!(s.display(), "Unpaid");
    let s = stipend(None, None, None, None, false);
    assert_eq!(s.display(), "Varies");
}

#[test]
fn sub_note_only_with_amount() {
    let s = stipend(Some(1500), Some(6600), Some("USD"), Some("12-22 week projects"), false);
    assert_eq!(s.sub_note(), Some("12-22 week projects"));
    let s = stipend(Some(1500), Some(6600), Some("USD"), None, false);
    assert_eq!(s.sub_note(), None);
}

#[test]
fn sort_value_prefers_max_and_converts_inr() {
    assert_eq!(stipend(Some(1500), Some(6600), Some("USD"), None, false).sort_value(), 6600);
    assert_eq!(stipend(Some(1500), None, Some("USD"), None, false).sort_value(), 1500);
    assert_eq!(stipend(None, None, None, None, true).sort_value(), 0);
    assert_eq!(stipend(Some(8400), Some(84000), Some("INR"), None, false).sort_value(), 1000);
    assert_eq!(stipend(None, Some(83), Some("INR"), None, false).sort_value(), 0);
}

#[test]
fn program_helpers() {
    let p = program("GSoC", &["paid", "global"], Some(stipend(Some(1), Some(2), Some("USD"), None, false)));
    assert_eq!(p.display_name(), "GSoC");
    assert!(p.is_paid());
    assert_eq!(p.stipend_sort(), 2);
    let q = program("Hacktoberfest", &["unpaid", "paid-ish"], None);
    assert!(!q.is_paid());
    assert_eq!(q.stipend_sort(), 0);
}
