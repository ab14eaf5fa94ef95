use audit_presenter::graph::DependencyGraph;
use audit_presenter::presenter::{
    summary_message, vulnerability_details, Advisory, Color, Line, Output, OutputConfig,
    OutputFormat, Presenter, Report, Vulnerabilities, Vulnerability, Warning,
};
use audit_presenter::release::{Release, Version};

fn rel(name: &str, major: u64, minor: u64, patch: u64) -> Release {
    Release {
        name: name.to_string(),
        version: Version { major, minor, patch, pre: String::new(), build: String::new() },
    }
}

fn attr(color: Color, label: &str, content: &str) -> Line {
    Line::Attr { color, label: label.to_string(), content: content.to_string() }
}

fn config(format: OutputFormat, quiet: bool, show_tree: Option<bool>) -> OutputConfig {
    OutputConfig { format, quiet, show_tree }
}

fn vuln(id: &str, url: Option<&str>, package: Release, patched: &[&str]) -> Vulnerability {
    Vulnerability {
        advisory: Advisory {
            id: id.to_string(),
            title: "Bad thing".to_string(),
            date: "2020-01-02".to_string(),
            url: url.map(|u| u.to_string()),
        },
        package,
        patched: patched.iter().map(|p| p.to_string()).collect(),
    }
}

/// app 1.0.0 depends on lib 0.5.1.
fn small_graph() -> DependencyGraph {
    DependencyGraph::new(vec![rel("lib", 0, 5, 1), rel("app", 1, 0, 0)], &vec![(1, 0)]).unwrap()
}

fn report(list: Vec<Vulnerability>, warnings: Vec<Warning>) -> Report {
    let count = list.len();
    Report { vulnerabilities: Vulnerabilities { found: count > 0, count, list }, warnings }
}

fn lines_of(out: Output) -> Vec<Line> {
    match out {
        Output::Lines(ls) => ls,
        Output::Structured => panic!("expected lines"),
    }
}

fn tree_block() -> Vec<Line> {
    vec![
        Line::TreeHeader { color: Color::Red },
        Line::Tree { text: "lib 0.5.1".to_string() },
        Line::Tree { text: "└── app 1.0.0".to_string() },
    ]
}

#[test]
fn json_output_is_structured_only() {
    let mut p = Presenter::new(&config(OutputFormat::Json, false, None));
    let r = report(vec![vuln("OTHER-1", None, rel("lib", 0, 5, 1), &[">= 1.0.0"])], vec![]);
    assert_eq!(p.print_report(&r, &small_graph()), Output::Structured);
}

#[test]
fn full_terminal_report() {
    let mut p = Presenter::new(&config(OutputFormat::Terminal, false, None));
    let w = Warning {
        package: "old".to_string(),
        message: "unmaintained".to_string(),
        url: Some("https://example.org/old".to_string()),
    };
    let r = report(vec![vuln("OTHER-1", None, rel("lib", 0, 5, 1), &["^0.6"])], vec![w]);
    let mut want = vec![
        Line::Error { message: "Vulnerable crates found!".to_string() },
        Line::Blank,
        attr(Color::Red, "ID:      ", "OTHER-1"),
        attr(Color::Red, "Crate:   ", "lib"),
        attr(Color::Red, "Version: ", "0.5.1"),
        attr(Color::Red, "Date:    ", "2020-01-02"),
        attr(Color::Red, "Title:   ", "Bad thing"),
        attr(Color::Red, "Solution: upgrade to", "^0.6"),
    ];
    want.extend(tree_block());
    want.extend(vec![
        Line::Blank,
        Line::Warn { message: "found informational advisories for dependencies".to_string() },
        Line::Blank,
        attr(Color::Yellow, "Crate:   ", "old"),
        attr(Color::Red, "Message: ", "unmaintained"),
        attr(Color::Yellow, "URL:     ", "https://example.org/old"),
        Line::Blank,
        Line::Error { message: "1 vulnerability found!".to_string() },
    ]);
    assert_eq!(lines_of(p.print_report(&r, &small_graph())), want);
}

#[test]
fn clean_report() {
    let mut p = Presenter::new(&config(OutputFormat::Terminal, false, None));
    let r = report(vec![], vec![]);
    assert_eq!(
        lines_of(p.print_report(&r, &small_graph())),
        vec![Line::Status {
            label: "Success".to_string(),
            message: "No vulnerable packages found".to_string()
        }]
    );
}

#[test]
fn same_release_tree_shown_once() {
    let mut p = Presenter::new(&config(OutputFormat::Terminal, false, None));
    let list = vec![
        vuln("OTHER-1", None, rel("lib", 0, 5, 1), &[]),
        vuln("OTHER-2", None, rel("lib", 0, 5, 1), &[]),
        vuln("OTHER-3", None, rel("lib", 0, 5, 1), &[]),
    ];
    let lines = lines_of(p.print_report(&report(list, vec![]), &small_graph()));
    let headers = lines.iter().filter(|l| matches!(l, Line::TreeHeader { .. })).count();
    let trees = lines.iter().filter(|l| matches!(l, Line::Tree { .. })).count();
    assert_eq!(headers, 1);
    assert_eq!(trees, 2);
    assert_eq!(lines.last(), Some(&Line::Error { message: "3 vulnerabilities found!".to_string() }));
}

#[test]
fn tree_not_repeated_across_reports_of_one_presenter() {
    let mut p = Presenter::new(&config(OutputFormat::Terminal, false, None));
    let r = report(vec![vuln("OTHER-1", None, rel("lib", 0, 5, 1), &[])], vec![]);
    let first = lines_of(p.print_report(&r, &small_graph()));
    let second = lines_of(p.print_report(&r, &small_graph()));
    assert!(first.contains(&Line::TreeHeader { color: Color::Red }));
    assert!(!second.contains(&Line::TreeHeader { color: Color::Red }));
}

#[test]
fn trees_off_only_drops_tree_blocks() {
    let list = vec![
        vuln("OTHER-1", Some("https://example.org/1"), rel("lib", 0, 5, 1), &["^0.6", "^0.5.2"]),
        vuln("OTHER-2", None, rel("app", 1, 0, 0), &[]),
    ];
    let r = report(list, vec![]);
    let mut on = Presenter::new(&config(OutputFormat::Terminal, false, Some(true)));
    let mut off = Presenter::new(&config(OutputFormat::Terminal, false, Some(false)));
    let with = lines_of(on.print_report(&r, &small_graph()));
    let without = lines_of(off.print_report(&r, &small_graph()));
    let stripped: Vec<Line> = with
        .into_iter()
        .filter(|l| !matches!(l, Line::TreeHeader { .. } | Line::Tree { .. }))
        .collect();
    assert_eq!(stripped, without);
    assert!(!without.iter().any(|l| matches!(l, Line::TreeHeader { .. } | Line::Tree { .. })));
}

#[test]
fn derived_url_preferred_over_own() {
    let v = vuln("X-1", Some("https://example.org/own"), rel("lib", 0, 5, 1), &[]);
    let lines = vulnerability_details(&v, Some("https://example.org/derived".to_string()));
    assert_eq!(lines[5], attr(Color::Red, "URL:     ", "https://example.org/derived"));
    assert_eq!(lines.len(), 8);
}

#[test]
fn own_url_when_none_derived() {
    let v = vuln("X-1", Some("https://example.org/own"), rel("lib", 0, 5, 1), &[]);
    let lines = vulnerability_details(&v, None);
    assert_eq!(lines[5], attr(Color::Red, "URL:     ", "https://example.org/own"));
    assert_eq!(lines.len(), 8);
}

#[test]
fn no_url_line_without_urls() {
    let v = vuln("X-1", None, rel("lib", 0, 5, 1), &[]);
    let lines = vulnerability_details(&v, None);
    assert_eq!(lines.len(), 7);
    assert!(!lines.iter().any(|l| matches!(l, Line::Attr { label, .. } if label == "URL:     ")));
}

#[test]
fn rustsec_id_gives_advisory_page() {
    let mut p = Presenter::new(&config(OutputFormat::Terminal, false, Some(false)));
    let v = vuln("RUSTSEC-2019-0001", Some("https://example.org/own"), rel("lib", 0, 5, 1), &[]);
    let lines = lines_of(p.print_report(&report(vec![v], vec![]), &small_graph()));
    assert!(lines.contains(&attr(
        Color::Red,
        "URL:     ",
        "https://rustsec.org/advisories/RUSTSEC-2019-0001"
    )));
}

#[test]
fn solution_joins_patched_in_order() {
    let v = vuln("X-1", None, rel("lib", 0, 5, 1), &["1.2.3", "1.3.0"]);
    let lines = vulnerability_details(&v, None);
    assert_eq!(lines[6], attr(Color::Red, "Solution: upgrade to", "1.2.3 OR 1.3.0"));
}

#[test]
fn solution_empty_without_patches() {
    let v = vuln("X-1", None, rel("lib", 0, 5, 1), &[]);
    let lines = vulnerability_details(&v, None);
    assert_eq!(lines[6], attr(Color::Red, "Solution: upgrade to", ""));
}

#[test]
fn summary_singular_and_plural() {
    assert_eq!(summary_message(1), "1 vulnerability found!");
    assert_eq!(summary_message(3), "3 vulnerabilities found!");
    assert_eq!(summary_message(0), "0 vulnerabilities found!");
    assert_eq!(summary_message(1205), "1205 vulnerabilities found!");
}

#[test]
fn before_report_quiet_is_silent() {
    let p = Presenter::new(&config(OutputFormat::Terminal, true, None));
    assert!(p.before_report("Cargo.lock", 42).is_empty());
}

#[test]
fn before_report_counts_dependencies() {
    let p = Presenter::new(&config(OutputFormat::Terminal, false, None));
    assert_eq!(
        p.before_report("Cargo.lock", 42),
        vec![Line::Status {
            label: "Scanning".to_string(),
            message: "Cargo.lock for vulnerabilities (42 crate dependencies)".to_string()
        }]
    );
}
