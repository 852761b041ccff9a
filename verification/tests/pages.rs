use site_gen::model::{
    BeginnerPick, Guide, LabelHint, LanguageGuide, LearningStep, NonCode, Program, ResourceLink,
    ResourceSection, Site, Stipend, Timeline, TimelineEvent,
};
use site_gen::output::{page_dir, robots_txt, sitemap};
use site_gen::render::{home, resources, shell, start_here, timeline, Page};

fn program(name: &str, short: Option<&str>, url: &str, tags: &[&str], stipend: Option<Stipend>) -> Program {
    Program {
        name: name.to_string(),
        short_name: short.map(|s| s.to_string()),
        url: url.to_string(),
        org: "Org".to_string(),
        timeline: Some("Mar - Apr".to_string()),
        timeline_year: Some(2026),
        stipend,
        eligibility: Some("18+".to_string()),
        caveat: None,
        tags: tags.iter().map(|t| t.to_string()).collect(),
        rewards: None,
    }
}

fn usd(max: u64) -> Option<Stipend> {
    Some(Stipend { min: Some(max), max: Some(max), currency: Some("USD".to_string()), note: None, unpaid: false })
}

fn event(month: u32, name: &str, program: Option<&str>, approx: bool) -> TimelineEvent {
    TimelineEvent {
        month,
        date: "Mar 1".to_string(),
        event: name.to_string(),
        program: program.map(|s| s.to_string()),
        time: None,
        approx,
    }
}

fn empty_guide() -> Guide {
    Guide { best_for_beginners: vec![], languages: vec![], non_code: vec![], learning_path: vec![], labels: vec![] }
}

fn site() -> Site {
    Site {
        programs: vec![
            program("Beta", None, "https://b.example", &["paid"], usd(1000)),
            program("Alpha", None, "https://a.example", &["paid", "beginner-friendly"], usd(1000)),
            program("Gamma", Some("GSoC"), "https://g.example", &["paid"], usd(6600)),
            program("Delta", None, "https://d.example", &["unpaid"], None),
        ],
        competitions: vec![program("Hacktoberfest", None, "https://h.example", &["global"], None)],
        timeline: Timeline {
            year: 2026,
            events: vec![
                event(3, "Contributor applications open", Some("gsoc"), false),
                event(1, "Org applications", Some("Unknown"), true),
                event(3, "Second March event", None, false),
            ],
        },
        resources: vec![ResourceSection {
            section: "Git & GitHub".to_string(),
            slug: "git".to_string(),
            items: vec![ResourceLink {
                name: "Pro Git".to_string(),
                url: "https://git-scm.com/book".to_string(),
                description: Some("The book".to_string()),
            }],
        }],
        guide: empty_guide(),
    }
}

#[test]
fn shell_root_page() {
    let p = Page {
        title: "Programs",
        description: "Desc & more",
        path: "/",
        nav: "programs",
        body: "<p>x</p>".to_string(),
        json_ld: None,
    };
    let h = shell(&p);
    assert!(h.starts_with("<!doctype html>\n<html lang=\"en\">\n<head>\n"));
    assert!(h.contains("<title>Open Source Programs 2026 - Paid Open Source Internships and Fellowships</title>\n"));
    assert!(h.contains("<meta name=\"description\" content=\"Desc &amp; more\">\n"));
    assert!(h.contains("<link rel=\"canonical\" href=\"https://list-of-opensource-programs.vercel.app\">\n"));
    assert!(h.contains("<a href=\"/\" aria-current=\"page\">Programs</a>\n"));
    assert!(h.contains("<a href=\"/timeline/\">Timeline</a>\n"));
    assert_eq!(h.matches("aria-current").count(), 1);
    assert!(h.contains("<main id=\"main\">\n<p>x</p>\n</main>\n"));
    assert!(!h.contains("application/ld+json"));
    assert!(h.ends_with("<script src=\"/assets/app.js\" defer></script>\n</body>\n</html>\n"));
}

#[test]
fn shell_sub_page() {
    let p = Page {
        title: "Start <here>",
        description: "d",
        path: "/start-here/",
        nav: "start",
        body: String::new(),
        json_ld: Some("{\"a\":1}".to_string()),
    };
    let h = shell(&p);
    assert!(h.contains("<title>Start &lt;here&gt; - Open Source Programs</title>\n"));
    assert!(h.contains("<meta property=\"og:url\" content=\"https://list-of-opensource-programs.vercel.app/start-here/\">\n"));
    assert!(h.contains("<a href=\"/start-here/\" aria-current=\"page\">Start here</a>\n"));
    assert!(h.contains("<script type=\"application/ld+json\">{\"a\":1}</script>\n</head>\n<body>\n"));
}

#[test]
fn home_orders_by_stipend_then_name() {
    let s = site();
    let page = home(&s);
    assert_eq!(page.path, "/");
    assert_eq!(page.nav, "programs");
    let b = &page.body;
    assert!(b.contains("<strong>3 of 5 are paid.</strong>"));
    assert!(b.contains("data-count>5 programs</span>"));
    let gamma = b.find("https://g.example").unwrap();
    let alpha = b.find("https://a.example").unwrap();
    let beta = b.find("https://b.example").unwrap();
    let delta = b.find("https://d.example").unwrap();
    let hack = b.find("https://h.example").unwrap();
    assert!(gamma < alpha && alpha < beta && beta < delta && delta < hack);
}

#[test]
fn home_row_contents() {
    let s = site();
    let b = home(&s).body;
    assert!(b.contains("<li class=\"row\" data-row data-tags=\"paid beginner-friendly\" data-search-text=\"Alpha Org 18+ Mar - Apr\">\n"));
    assert!(b.contains("<div class=\"tags\">\n<span class=\"tag t-beginner-friendly\">beginner-friendly</span>\n</div>\n"));
    assert!(b.contains("data-search-text=\"Gamma Org GSoC 18+ Mar - Apr\""));
    assert!(b.contains("<div class=\"amount\">$6,600</div>\n"));
    assert!(b.contains("<div class=\"amount is-vague\">Not stated</div>\n"));
    assert!(b.contains("<span class=\"when-text\">Mar - Apr</span>\n"));
}

#[test]
fn home_json_ld_lists_programs_then_competitions() {
    let mut s = site();
    s.programs[0].name = "Beta \"B\" \\ \n\u{1}".to_string();
    let ld = home(&s).json_ld.unwrap();
    assert!(ld.starts_with("{\"@context\":\"https://schema.org\",\"@type\":\"ItemList\",\"itemListElement\":[{\"@type\":\"ListItem\",\"name\":\"Beta \\\"B\\\" \\\\ \\n\\u0001\",\"position\":1,\"url\":\"https://b.example\"},"));
    assert!(ld.contains("{\"@type\":\"ListItem\",\"name\":\"Hacktoberfest\",\"position\":5,\"url\":\"https://h.example\"}]"));
    assert!(ld.ends_with("],\"name\":\"Open source programs and internships 2026\"}"));
}

#[test]
fn timeline_groups_by_month_and_links() {
    let s = site();
    let page = timeline(&s);
    assert_eq!(page.path, "/timeline/");
    let b = &page.body;
    assert!(b.contains("<h1>2026 timeline</h1>\n"));
    assert!(b.contains("<div class=\"month\" id=\"january\">\n<h3>January 2026</h3>\n"));
    assert!(b.contains("<div class=\"month\" id=\"march\">\n<h3>March 2026</h3>\n"));
    assert!(!b.contains("February"));
    assert!(b.find("january").unwrap() < b.find("march").unwrap());
    assert!(b.contains("<a href=\"https://g.example\" rel=\"noopener\">Contributor applications open</a>"));
    assert!(b.contains("<li class=\"event is-approx\">\n<span class=\"date\">Mar 1</span>\n<span class=\"what\">Org applications<span class=\"meta\">approx</span></span>\n</li>\n"));
    assert!(b.find("Contributor applications open").unwrap() < b.find("Second March event").unwrap());
}

#[test]
fn start_here_sections() {
    let mut s = site();
    s.guide = Guide {
        best_for_beginners: vec![BeginnerPick {
            program: "alpha".to_string(),
            why: "Look for `good first issue`".to_string(),
            getting_started: "Read the docs".to_string(),
        }],
        languages: vec![
            LanguageGuide { name: "Rust".to_string(), repos: vec![], note: None, labels: vec!["E-easy".to_string()] },
            LanguageGuide { name: "Go".to_string(), repos: vec![], note: Some("`help wanted`".to_string()), labels: vec![] },
            LanguageGuide { name: "Python".to_string(), repos: vec![], note: None, labels: vec![] },
        ],
        non_code: vec![NonCode { kind: "Docs".to_string(), description: "Write".to_string(), links: vec![] }],
        learning_path: vec![LearningStep { weeks: "Week 1".to_string(), goal: "Learn `git`".to_string() }],
        labels: vec![LabelHint { label: "good first issue".to_string(), meaning: "Easy".to_string() }],
    };
    let page = start_here(&s);
    assert_eq!(page.nav, "start");
    let b = &page.body;
    assert!(b.contains("<li>\n<div class=\"item-name\"><a href=\"https://a.example\" rel=\"noopener\">alpha</a></div>\n<p class=\"item-desc\">Look for <code class=\"code-label\">good first issue</code></p>\n"));
    assert!(b.contains("<div class=\"label-list\">\n<span class=\"code-label\">E-easy</span>\n</div>\n"));
    let split = b.find("</div>\n<div>\n<div class=\"lang-block\">\n<h3>Python</h3>").is_some();
    assert!(split);
    assert!(b.contains("<div class=\"step-goal\">Learn <code class=\"code-label\">git</code></div>\n"));
}

#[test]
fn resources_page() {
    let s = site();
    let page = resources(&s);
    assert_eq!(page.path, "/resources/");
    let b = &page.body;
    assert!(b.contains("<div id=\"git\">\n<h2 style=\"font-size:18px;margin-bottom:14px\">Git &amp; GitHub</h2>\n"));
    assert!(b.contains("<p class=\"item-desc\">The book</p>\n"));
    assert!(b.contains("<a href=\"https://github.com/yashisrani/List-of-OpenSource-Programs/issues/new\" rel=\"noopener\">Report an outdated entry</a>"));
}

#[test]
fn sitemap_and_robots() {
    let s = site();
    let pages = [home(&s), timeline(&s)];
    let m = sitemap(&pages);
    assert_eq!(
        m,
        "<?xml version=\"1.0\" encoding=\"UTF-8\"?>\n<urlset xmlns=\"http://www.sitemaps.org/schemas/sitemap/0.9\">\n  <url><loc>https://list-of-opensource-programs.vercel.app/</loc><changefreq>weekly</changefreq><priority>1.0</priority></url>\n  <url><loc>https://list-of-opensource-programs.vercel.app/timeline/</loc><changefreq>weekly</changefreq><priority>0.8</priority></url>\n</urlset>\n"
    );
    assert_eq!(robots_txt(), "User-agent: *\nAllow: /\n\nSitemap: https://list-of-opensource-programs.vercel.app/sitemap.xml\n");
}

#[test]
fn page_dirs() {
    assert_eq!(page_dir("/"), "");
    assert_eq!(page_dir("/timeline/"), "timeline");
    assert_eq!(page_dir("/start-here/"), "start-here");
}

#[test]
fn pages_have_distinct_heads() {
    let s = site();
    let pages = [home(&s), timeline(&s), start_here(&s), resources(&s)];
    let heads: Vec<(String, String, String)> = pages
        .iter()
        .map(|p| {
            let h = shell(p);
            let grab = |open: &str, close: &str| {
                let i = h.find(open).unwrap() + open.len();
                let j = h[i..].find(close).unwrap() + i;
                h[i..j].to_string()
            };
            (
                grab("<title>", "</title>"),
                grab("<meta name=\"description\" content=\"", "\">"),
                grab("<link rel=\"canonical\" href=\"", "\">"),
            )
        })
        .collect();
    for i in 0..4 {
        for j in i + 1..4 {
            assert_ne!(heads[i].0, heads[j].0);
            assert_ne!(heads[i].1, heads[j].1);
            assert_ne!(heads[i].2, heads[j].2);
        }
    }
    let u = "https://list-of-opensource-programs.vercel.app";
    assert_eq!(heads[0].2, u);
    assert_eq!(heads[1].2, format!("{u}/timeline/"));
    assert_eq!(heads[2].2, format!("{u}/start-here/"));
    assert_eq!(heads[3].2, format!("{u}/resources/"));
}
