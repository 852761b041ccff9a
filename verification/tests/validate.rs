use site_gen::model::{
    BeginnerPick, Guide, Program, ResourceSection, Site, Stipend, Timeline, TimelineEvent,
};
use site_gen::validate::check;

fn program(name: &str, url: &str, tags: &[&str], stipend: Option<Stipend>) -> Program {
    Program {
        name: name.to_string(),
        short_name: None,
        url: url.to_string(),
        org: "Org".to_string(),
        timeline: Some("t".to_string()),
        timeline_year: None,
        stipend,
        eligibility: Some("e".to_string()),
        caveat: None,
        tags: tags.iter().map(|t| t.to_string()).collect(),
        rewards: None,
    }
}

fn site(programs: Vec<Program>) -> Site {
    Site {
        programs,
        competitions: vec![],
        timeline: Timeline { year: 2026, events: vec![] },
        resources: vec![],
        guide: Guide { best_for_beginners: vec![], languages: vec![], non_code: vec![], learning_path: vec![], labels: vec![] },
    }
}

fn section(slug: &str) -> ResourceSection {
    ResourceSection { section: "S".to_string(), slug: slug.to_string(), items: vec![] }
}

#[test]
fn clean_site_passes() {
    let r = check(&site(vec![program("A", "https://a", &["paid"], Some(Stipend { min: Some(1), max: Some(2), currency: Some("USD".to_string()), note: None, unpaid: false }))]));
    assert!(r.errors.is_empty());
    assert!(r.warnings.is_empty());
}

#[test]
fn duplicate_names_ignore_case() {
    let r = check(&site(vec![
        program("GSoC", "https://a", &[], None),
        program("gsoc", "https://b", &[], None),
        program("Other", "https://c", &[], None),
        program("GSOC", "https://d", &[], None),
    ]));
    assert_eq!(r.errors, vec!["duplicate program name \"gsoc\" appears 3 times".to_string()]);
}

#[test]
fn program_errors_in_order() {
    let r = check(&site(vec![
        program(" ", "ftp://x", &["paid", "unpaid"], Some(Stipend { min: Some(5), max: Some(3), currency: None, note: None, unpaid: true })),
    ]));
    assert_eq!(
        r.errors,
        vec![
            "a program has an empty name".to_string(),
            " : url must be absolute, got \"ftp://x\"".to_string(),
            " : tagged both paid and unpaid".to_string(),
            " : stipend min 5 exceeds max 3".to_string(),
            " : stipend has an amount but no currency".to_string(),
            " : stipend marked unpaid but carries an amount".to_string(),
        ]
    );
}

#[test]
fn http_url_is_absolute() {
    let r = check(&site(vec![program("A", "http://a", &[], None)]));
    assert!(r.errors.is_empty());
}

#[test]
fn warnings_for_incomplete_entries() {
    let mut p = program("A", "https://a", &["paid"], None);
    p.org = "  ".to_string();
    p.timeline = None;
    p.eligibility = None;
    let r = check(&site(vec![p]));
    assert!(r.errors.is_empty());
    assert_eq!(
        r.warnings,
        vec![
            "A: no org set".to_string(),
            "A: no timeline set".to_string(),
            "A: no eligibility set".to_string(),
            "A: tagged paid but has no stipend block".to_string(),
        ]
    );
}

#[test]
fn rewards_silence_paid_warning() {
    let mut p = program("A", "https://a", &["paid"], None);
    p.rewards = Some("Swag".to_string());
    assert!(check(&site(vec![p])).warnings.is_empty());
}

#[test]
fn timeline_and_guide_references() {
    let mut s = site(vec![program("Google Summer of Code", "https://a", &[], None)]);
    s.programs[0].short_name = Some("GSoC".to_string());
    s.timeline.events = vec![
        TimelineEvent { month: 13, date: "d".to_string(), event: "Bad".to_string(), program: Some("gsoc".to_string()), time: None, approx: false },
        TimelineEvent { month: 0, date: "d".to_string(), event: "Zero".to_string(), program: Some("Outreachy".to_string()), time: None, approx: false },
    ];
    s.guide.best_for_beginners = vec![
        BeginnerPick { program: "GOOGLE SUMMER OF CODE".to_string(), why: String::new(), getting_started: String::new() },
        BeginnerPick { program: "Nope".to_string(), why: String::new(), getting_started: String::new() },
    ];
    let r = check(&s);
    assert_eq!(
        r.errors,
        vec![
            "timeline event \"Bad\" has month 13, expected 1-12".to_string(),
            "timeline event \"Zero\" has month 0, expected 1-12".to_string(),
        ]
    );
    assert_eq!(
        r.warnings,
        vec![
            "timeline event \"Zero\" references unknown program \"Outreachy\"".to_string(),
            "guide.best_for_beginners references unknown program \"Nope\"".to_string(),
        ]
    );
}

#[test]
fn duplicate_slugs() {
    let mut s = site(vec![]);
    s.resources = vec![section("git"), section("tools"), section("git")];
    let r = check(&s);
    assert_eq!(r.errors, vec!["duplicate resource section slug \"git\"".to_string()]);
}

#[test]
fn competitions_are_checked_too() {
    let mut s = site(vec![program("A", "https://a", &[], None)]);
    s.competitions = vec![program("a", "relative/path", &[], None)];
    let r = check(&s);
    assert_eq!(
        r.errors,
        vec![
            "duplicate program name \"a\" appears 2 times".to_string(),
            "a: url must be absolute, got \"relative/path\"".to_string(),
        ]
    );
}

#[test]
fn incomplete_entries_only_warn() {
    let base = site(vec![
        program("A", "https://a", &["paid", "unpaid"], None),
        program("B", "ftp://b", &[], None),
    ]);
    let mut changed = site(vec![
        program("A", "https://a", &["paid", "unpaid"], None),
        program("B", "ftp://b", &[], None),
    ]);
    changed.programs[0].timeline = None;
    changed.programs[1].eligibility = None;
    changed.programs[1].org = String::new();
    changed.timeline.events = vec![];
    let r1 = check(&base);
    let r2 = check(&changed);
    assert_eq!(r1.errors, r2.errors);
    assert!(r2.warnings.contains(&"A: no timeline set".to_string()));
    assert!(r2.warnings.contains(&"B: no eligibility set".to_string()));
    assert!(r2.warnings.contains(&"B: no org set".to_string()));
}
