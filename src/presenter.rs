//! The report presenter: the lines shown for an audit report, with the
//! dependency tree of each vulnerable release shown at most once.
use vstd::prelude::*;
use crate::graph::{first_from, release_views, DependencyGraph};
use crate::release::{Release, ReleaseView, Version, version_text};
use crate::text::{decimal, join, joined, push_decimal, text};
use crate::tree::{tree_lines, tree_text};

verus! {

/// The form of the output.
#[derive(Clone, Copy, Debug, PartialEq, Eq, Structural)]
pub enum OutputFormat {
    /// Coloured lines for a terminal.
    Terminal,
    /// The report serialized as JSON.
    Json,
}

/// What the presenter is configured to show.
#[derive(Clone, Copy, Debug, PartialEq, Eq, Structural)]
pub struct OutputConfig {
    pub format: OutputFormat,
    /// Leave out the notice before the scan.
    pub quiet: bool,
    /// Show dependency trees (shown when unset).
    pub show_tree: Option<bool>,
}

impl OutputConfig {
    /// Whether dependency trees are shown.
    pub open spec fn trees_on(&self) -> bool {
        match self.show_tree {
            Some(b) => b,
            None => true,
        }
    }
}

/// The colour of a line: alert for vulnerabilities, caution for warnings.
#[derive(Clone, Copy, Debug, PartialEq, Eq, Structural)]
pub enum Color {
    Red,
    Yellow,
}

/// A line of output.
#[derive(Clone, Debug, PartialEq, Eq)]
pub enum Line {
    /// An empty line.
    Blank,
    /// A status in green: a right-aligned bold label, then a message.
    Status { label: String, message: String },
    /// `warning:` in yellow, then a message.
    Warn { message: String },
    /// `error:` in red, then a message.
    Error { message: String },
    /// An attribute: a bold coloured label, then its content.
    Attr { color: Color, label: String, content: String },
    /// The header of a dependency tree, in the colour of its block.
    TreeHeader { color: Color },
    /// One line of a dependency tree.
    Tree { text: String },
}

/// A line of output, as mathematical values.
pub enum LineView {
    Blank,
    Status { label: Seq<char>, message: Seq<char> },
    Warn { message: Seq<char> },
    Error { message: Seq<char> },
    Attr { color: Color, label: Seq<char>, content: Seq<char> },
    TreeHeader { color: Color },
    Tree { text: Seq<char> },
}

impl View for Line {
    type V = LineView;

    open spec fn view(&self) -> LineView {
        match self {
            Line::Blank => LineView::Blank,
            Line::Status { label, message } => LineView::Status {
                label: label@,
                message: message@,
            },
            Line::Warn { message } => LineView::Warn { message: message@ },
            Line::Error { message } => LineView::Error { message: message@ },
            Line::Attr { color, label, content } => LineView::Attr {
                color: *color,
                label: label@,
                content: content@,
            },
            Line::TreeHeader { color } => LineView::TreeHeader { color: *color },
            Line::Tree { text } => LineView::Tree { text: text@ },
        }
    }
}

/// The views of a sequence of lines.
pub open spec fn lines_view(ls: Seq<Line>) -> Seq<LineView> {
    ls.map_values(|l: Line| l@)
}

/// A published advisory.
#[derive(Clone, Debug)]
pub struct Advisory {
    pub id: String,
    pub title: String,
    pub date: String,
    pub url: Option<String>,
}

/// A vulnerability found in a release: the advisory, the release, and the
/// version requirements that are patched.
#[derive(Clone, Debug)]
pub struct Vulnerability {
    pub advisory: Advisory,
    pub package: Release,
    pub patched: Vec<String>,
}

/// An informational warning about a package.
#[derive(Clone, Debug)]
pub struct Warning {
    pub package: String,
    pub message: String,
    pub url: Option<String>,
}

/// The vulnerabilities of a report.
#[derive(Clone, Debug)]
pub struct Vulnerabilities {
    pub found: bool,
    pub count: usize,
    pub list: Vec<Vulnerability>,
}

/// An audit report.
#[derive(Clone, Debug)]
pub struct Report {
    pub vulnerabilities: Vulnerabilities,
    pub warnings: Vec<Warning>,
}

/// What printing a report produced.
#[derive(Clone, Debug, PartialEq, Eq)]
pub enum Output {
    /// The report is to be written out whole as JSON, and nothing else.
    Structured,
    /// The lines to show, in order.
    Lines(Vec<Line>),
}

/// The characters of an optional string.
pub open spec fn opt_view(o: Option<String>) -> Option<Seq<char>> {
    match o {
        Some(s) => Some(s@),
        None => None,
    }
}

/// The canonical web page of an advisory, derived from its id, if there is one.
pub uninterp spec fn id_url(id: Seq<char>) -> Option<Seq<char>>;

/// Relies on rustsec's `advisory::Id` (read with `FromStr`) and `Id::url`:
/// the page derived from an advisory id depends on the id alone.
#[verifier::external_body]
fn advisory_url(id: &str) -> (r: Option<String>)
    ensures
        opt_view(r) == id_url(id@),
{
    match id.parse::<rustsec::advisory::Id>() {
        Ok(parsed) => parsed.url(),
        Err(_) => None,
    }
}

/// An attribute line.
pub open spec fn attr(color: Color, label: Seq<char>, content: Seq<char>) -> LineView {
    LineView::Attr { color, label, content }
}

/// The URL line of a vulnerability: the page derived from the id where there
/// is one, else the advisory's own URL, else none.
pub open spec fn url_lines(derived: Option<Seq<char>>, own: Option<Seq<char>>) -> Seq<LineView> {
    match derived {
        Some(u) => seq![attr(Color::Red, "URL:     "@, u)],
        None => match own {
            Some(u) => seq![attr(Color::Red, "URL:     "@, u)],
            None => Seq::empty(),
        },
    }
}

/// The patched requirements, joined with ` OR `.
pub open spec fn solution(v: Vulnerability) -> Seq<char> {
    joined(v.patched.deep_view(), " OR "@)
}

/// The detail lines of a vulnerability, given the page derived from its id.
pub open spec fn detail_lines(v: Vulnerability, derived: Option<Seq<char>>) -> Seq<LineView> {
    seq![
        LineView::Blank,
        attr(Color::Red, "ID:      "@, v.advisory.id@),
        attr(Color::Red, "Crate:   "@, v.package.name@),
        attr(Color::Red, "Version: "@, version_text(v.package@)),
        attr(Color::Red, "Date:    "@, v.advisory.date@),
    ] + url_lines(derived, opt_view(v.advisory.url)) + seq![
        attr(Color::Red, "Title:   "@, v.advisory.title@),
        attr(Color::Red, "Solution: upgrade to"@, solution(v)),
    ]
}

/// The node of the graph that stands for release `r`.
pub open spec fn node_index(g: DependencyGraph, r: ReleaseView) -> int {
    first_from(g.rels(), r, 0)
}

/// The tree block of a release: the header, then the tree lines.
pub open spec fn tree_block(g: DependencyGraph, r: ReleaseView, color: Color) -> Seq<LineView> {
    seq![LineView::TreeHeader { color }] + tree_text(
        g,
        node_index(g, r) as usize,
    ).map_values(|t: Seq<char>| LineView::Tree { text: t })
}

/// The release of vulnerability `j` was shown before: it is in `shown`, or an
/// earlier vulnerability of the list has it.
pub open spec fn seen(shown: Set<ReleaseView>, list: Seq<Vulnerability>, j: int) -> bool {
    shown.contains(list[j].package@) || exists|i: int|
        0 <= i < j && #[trigger] list[i].package@ == list[j].package@
}

/// The tree of vulnerability `j` is shown: trees are on and its release was
/// not shown before.
pub open spec fn tree_due(trees: bool, shown: Set<ReleaseView>, list: Seq<Vulnerability>, j: int) -> bool {
    trees && !seen(shown, list, j)
}

/// The block of vulnerability `j`: its details, then its tree where due.
pub open spec fn vuln_block(
    trees: bool,
    shown: Set<ReleaseView>,
    g: DependencyGraph,
    list: Seq<Vulnerability>,
    j: int,
) -> Seq<LineView> {
    detail_lines(list[j], id_url(list[j].advisory.id@)) + if tree_due(trees, shown, list, j) {
        tree_block(g, list[j].package@, Color::Red)
    } else {
        Seq::empty()
    }
}

/// The blocks of all vulnerabilities of the list, in order.
pub open spec fn vulns_lines(
    trees: bool,
    shown: Set<ReleaseView>,
    g: DependencyGraph,
    list: Seq<Vulnerability>,
) -> Seq<LineView>
    decreases list.len(),
{
    if list.len() == 0 {
        Seq::empty()
    } else {
        vulns_lines(trees, shown, g, list.drop_last()) + vuln_block(
            trees,
            shown,
            g,
            list,
            list.len() - 1,
        )
    }
}

/// The releases of the vulnerabilities of the list.
pub open spec fn packages(list: Seq<Vulnerability>) -> Set<ReleaseView> {
    Set::new(|r: ReleaseView| exists|i: int| 0 <= i < list.len() && #[trigger] list[i].package@ == r)
}

/// The lines of a warning.
pub open spec fn warning_lines(w: Warning) -> Seq<LineView> {
    seq![
        LineView::Blank,
        attr(Color::Yellow, "Crate:   "@, w.package@),
        attr(Color::Red, "Message: "@, w.message@),
    ] + match w.url {
        Some(u) => seq![attr(Color::Yellow, "URL:     "@, u@)],
        None => Seq::empty(),
    }
}

/// The lines of all warnings, in order.
pub open spec fn warnings_lines(ws: Seq<Warning>) -> Seq<LineView>
    decreases ws.len(),
{
    if ws.len() == 0 {
        Seq::empty()
    } else {
        warnings_lines(ws.drop_last()) + warning_lines(ws.last())
    }
}

/// The summary message for `count` vulnerabilities.
pub open spec fn summary(count: nat) -> Seq<char> {
    if count == 1 {
        "1 vulnerability found!"@
    } else {
        decimal(count) + " vulnerabilities found!"@
    }
}

/// The lines of a report shown on a terminal.
pub open spec fn report_lines(
    trees: bool,
    shown: Set<ReleaseView>,
    g: DependencyGraph,
    rep: Report,
) -> Seq<LineView> {
    let found = rep.vulnerabilities.found;
    (if found {
        seq![LineView::Error { message: "Vulnerable crates found!"@ }]
    } else {
        seq![LineView::Status { label: "Success"@, message: "No vulnerable packages found"@ }]
    }) + vulns_lines(trees, shown, g, rep.vulnerabilities.list@) + (if rep.warnings@.len() > 0 {
        seq![
            LineView::Blank,
            LineView::Warn { message: "found informational advisories for dependencies"@ },
        ] + warnings_lines(rep.warnings@)
    } else {
        Seq::empty()
    }) + (if found {
        seq![LineView::Blank, LineView::Error { message: summary(rep.vulnerabilities.count as nat) }]
    } else {
        Seq::empty()
    })
}

/// The notice before a scan.
pub open spec fn scan_notice(path: Seq<char>, count: nat) -> LineView {
    LineView::Status {
        label: "Scanning"@,
        message: path + " for vulnerabilities ("@ + decimal(count) + " crate dependencies)"@,
    }
}

/// The release is a node of the graph.
pub open spec fn in_graph(g: DependencyGraph, r: ReleaseView) -> bool {
    exists|i: int| 0 <= i < g.node_count() && g.rels()[i] == r
}

fn copy_release(r: &Release) -> (c: Release)
    ensures
        c@ == r@,
{
    Release {
        name: r.name.clone(),
        version: Version {
            major: r.version.major,
            minor: r.version.minor,
            patch: r.version.patch,
            pre: r.version.pre.clone(),
            build: r.version.build.clone(),
        },
    }
}

fn copy_opt(o: &Option<String>) -> (c: Option<String>)
    ensures
        opt_view(c) == opt_view(*o),
{
    match o {
        Some(s) => Some(s.clone()),
        None => None,
    }
}

fn print_attr(out: &mut Vec<Line>, color: Color, label: &str, content: String)
    ensures
        lines_view(final(out)@) == lines_view(old(out)@).push(attr(color, label@, content@)),
{
    let line = Line::Attr { color, label: text(label), content };
    out.push(line);
    assert(lines_view(out@) =~= lines_view(old(out)@).push(attr(color, label@, content@)));
}

fn push_line(out: &mut Vec<Line>, line: Line)
    ensures
        lines_view(final(out)@) == lines_view(old(out)@).push(line@),
{
    out.push(line);
    assert(lines_view(out@) =~= lines_view(old(out)@).push(line@));
}

fn push_details(out: &mut Vec<Line>, v: &Vulnerability, derived: Option<String>)
    ensures
        lines_view(final(out)@) == lines_view(old(out)@) + detail_lines(*v, opt_view(derived)),
{
    let ghost start = lines_view(out@);
    push_line(out, Line::Blank);
    print_attr(out, Color::Red, "ID:      ", v.advisory.id.clone());
    print_attr(out, Color::Red, "Crate:   ", v.package.name.clone());
    let mut version = String::new();
    v.package.push_version(&mut version);
    assert(version@ =~= version_text(v.package@));
    print_attr(out, Color::Red, "Version: ", version);
    print_attr(out, Color::Red, "Date:    ", v.advisory.date.clone());
    let ghost mid = lines_view(out@);
    match derived {
        Some(u) => {
            print_attr(out, Color::Red, "URL:     ", u);
        },
        None => {
            match &v.advisory.url {
                Some(u) => {
                    print_attr(out, Color::Red, "URL:     ", u.clone());
                },
                None => {},
            }
        },
    }
    assert(lines_view(out@) =~= mid + url_lines(opt_view(derived), opt_view(v.advisory.url)));
    print_attr(out, Color::Red, "Title:   ", v.advisory.title.clone());
    print_attr(out, Color::Red, "Solution: upgrade to", join(&v.patched, " OR "));
    assert(lines_view(out@) =~= start + detail_lines(*v, opt_view(derived)));
}

/// The detail lines of a vulnerability, given the page derived from its
/// advisory id (if any): id, crate, version, date, the URL (the derived page
/// first, else the advisory's own), title, and the patched requirements
/// joined with ` OR `.
pub fn vulnerability_details(v: &Vulnerability, derived: Option<String>) -> (r: Vec<Line>)
    ensures
        lines_view(r@) == detail_lines(*v, opt_view(derived)),
{
    let mut out: Vec<Line> = Vec::new();
    push_details(&mut out, v, derived);
    assert(lines_view(Seq::<Line>::empty()) =~= Seq::empty());
    assert(lines_view(out@) =~= detail_lines(*v, opt_view(derived)));
    out
}

fn print_warning(out: &mut Vec<Line>, w: &Warning)
    ensures
        lines_view(final(out)@) == lines_view(old(out)@) + warning_lines(*w),
{
    let ghost start = lines_view(out@);
    push_line(out, Line::Blank);
    print_attr(out, Color::Yellow, "Crate:   ", w.package.clone());
    print_attr(out, Color::Red, "Message: ", w.message.clone());
    match &w.url {
        Some(u) => {
            print_attr(out, Color::Yellow, "URL:     ", u.clone());
        },
        None => {},
    }
    assert(lines_view(out@) =~= start + warning_lines(*w));
}

/// The summary message for `count` vulnerabilities: singular for one,
/// plural with the count otherwise.
pub fn summary_message(count: u64) -> (r: String)
    ensures
        r@ == summary(count as nat),
{
    if count == 1 {
        text("1 vulnerability found!")
    } else {
        let mut s = String::new();
        push_decimal(&mut s, count);
        s.append(" vulnerabilities found!");
        assert(s@ =~= summary(count as nat));
        s
    }
}

fn print_warnings(out: &mut Vec<Line>, warnings: &Vec<Warning>)
    ensures
        lines_view(final(out)@) == lines_view(old(out)@) + warnings_lines(warnings@),
{
    let ghost wstart = lines_view(out@);
    let mut k: usize = 0;
    assert(warnings@.take(0) =~= Seq::<Warning>::empty());
    assert(wstart + Seq::<LineView>::empty() =~= wstart);
    while k < warnings.len()
        invariant
            k <= warnings@.len(),
            wstart == lines_view(old(out)@),
            lines_view(out@) == wstart + warnings_lines(warnings@.take(k as int)),
        decreases warnings.len() - k,
    {
        print_warning(out, &warnings[k]);
        proof {
            let t1 = warnings@.take(k + 1);
            assert(t1.drop_last() =~= warnings@.take(k as int));
            assert(lines_view(out@) =~= wstart + warnings_lines(t1));
        }
        k += 1;
    }
    assert(warnings@.take(warnings@.len() as int) =~= warnings@);
}

/// Presents audit reports. It remembers which releases have had their
/// dependency tree shown, so that each tree is shown once.
pub struct Presenter {
    displayed_packages: Vec<Release>,
    config: OutputConfig,
}

impl Presenter {
    /// The releases whose tree has been shown.
    pub closed spec fn shown(&self) -> Set<ReleaseView> {
        release_views(self.displayed_packages@).to_set()
    }

    /// The configuration.
    pub closed spec fn config(&self) -> OutputConfig {
        self.config
    }

    /// A presenter with the given configuration that has shown no tree yet.
    pub fn new(config: &OutputConfig) -> (r: Presenter)
        ensures
            r.shown() == Set::<ReleaseView>::empty(),
            r.config() == *config,
    {
        let r = Presenter { displayed_packages: Vec::new(), config: *config };
        assert(r.shown() =~= Set::<ReleaseView>::empty());
        r
    }

    /// The notice shown before a scan of the lockfile at `lockfile_path`,
    /// which holds `package_count` packages: none when quiet.
    pub fn before_report(&self, lockfile_path: &str, package_count: usize) -> (r: Vec<Line>)
        ensures
            self.config().quiet ==> r@.len() == 0,
            !self.config().quiet ==> lines_view(r@) == seq![
                scan_notice(lockfile_path@, package_count as nat),
            ],
    {
        let mut out: Vec<Line> = Vec::new();
        if !self.config.quiet {
            let mut message = text(lockfile_path);
            message.append(" for vulnerabilities (");
            push_decimal(&mut message, package_count as u64);
            message.append(" crate dependencies)");
            push_line(&mut out, Line::Status { label: text("Scanning"), message });
            assert(lines_view(out@) =~= seq![scan_notice(lockfile_path@, package_count as nat)]);
        }
        out
    }

    fn has_shown(&self, r: &Release) -> (b: bool)
        ensures
            b == self.shown().contains(r@),
    {
        let mut i: usize = 0;
        while i < self.displayed_packages.len()
            invariant
                i <= self.displayed_packages@.len(),
                forall|j: int| 0 <= j < i ==> self.displayed_packages@[j]@ != r@,
            decreases self.displayed_packages.len() - i,
        {
            if self.displayed_packages[i].same(r) {
                assert(release_views(self.displayed_packages@)[i as int] == r@);
                return true;
            }
            i += 1;
        }
        assert(!release_views(self.displayed_packages@).contains(r@));
        false
    }

    /// Records that the tree of `package` is shown, and adds its lines
    /// unless it was shown before or trees are off.
    fn print_tree(
        &mut self,
        color: Color,
        package: &Release,
        graph: &DependencyGraph,
        out: &mut Vec<Line>,
    )
        requires
            graph.wf(),
            old(self).config().trees_on() && !old(self).shown().contains(package@) ==> in_graph(
                *graph,
                package@,
            ),
        ensures
            final(self).shown() == old(self).shown().insert(package@),
            old(self).shown().contains(package@) ==> final(self).shown() == old(self).shown(),
            final(self).config() == old(self).config(),
            lines_view(final(out)@) == lines_view(old(out)@) + if old(self).config().trees_on()
                && !old(self).shown().contains(package@) {
                tree_block(*graph, package@, color)
            } else {
                Seq::empty()
            },
    {
        let ghost start = lines_view(out@);
        let seen_before = self.has_shown(package);
        if !seen_before {
            let ghost before = release_views(self.displayed_packages@);
            self.displayed_packages.push(copy_release(package));
            let ghost after = before.push(package@);
            assert(release_views(self.displayed_packages@) =~= after);
            assert forall|r: ReleaseView| after.contains(r) <==> before.contains(r) || r == package@ by {
                if after.contains(r) && r != package@ {
                    let j = choose|j: int| 0 <= j < after.len() && after[j] == r;
                    assert(before[j] == r);
                }
                if before.contains(r) {
                    let j = choose|j: int| 0 <= j < before.len() && before[j] == r;
                    assert(after[j] == r);
                }
                assert(after[before.len() as int] == package@);
            }
            assert(self.shown() =~= old(self).shown().insert(package@));
        } else {
            assert(self.shown() =~= old(self).shown().insert(package@));
            assert(self.shown() =~= old(self).shown());
        }
        let trees_on = match self.config.show_tree {
            Some(b) => b,
            None => true,
        };
        if seen_before || !trees_on {
            assert(lines_view(out@) =~= start + Seq::empty());
            return;
        }
        push_line(out, Line::TreeHeader { color });
        let node = match graph.node_of(package) {
            Some(i) => i,
            None => {
                proof {
                    let i = choose|i: int| 0 <= i < graph.node_count() && graph.rels()[i] == package@;
                }
                return;
            },
        };
        let lines = tree_lines(graph, node);
        let ghost want = tree_text(*graph, node).map_values(|t: Seq<char>| LineView::Tree { text: t });
        let ghost mid = lines_view(out@);
        let mut i: usize = 0;
        while i < lines.len()
            invariant
                i <= lines@.len(),
                lines.deep_view() == tree_text(*graph, node),
                want == tree_text(*graph, node).map_values(|t: Seq<char>| LineView::Tree { text: t }),
                lines_view(out@) == mid + want.take(i as int),
            decreases lines.len() - i,
        {
            push_line(out, Line::Tree { text: lines[i].clone() });
            assert(lines.deep_view()[i as int] == lines@[i as int]@);
            assert(want.take(i + 1) =~= want.take(i as int).push(LineView::Tree { text: lines@[i as int]@ }));
            i += 1;
        }
        assert(want.take(lines@.len() as int) =~= want);
        assert(lines_view(out@) =~= start + tree_block(*graph, package@, color));
    }

    /// Adds the details of a vulnerability, then its tree where due, and
    /// records its release as shown.
    fn print_vulnerability(
        &mut self,
        vulnerability: &Vulnerability,
        graph: &DependencyGraph,
        out: &mut Vec<Line>,
    )
        requires
            graph.wf(),
            old(self).config().trees_on() && !old(self).shown().contains(
                vulnerability.package@,
            ) ==> in_graph(*graph, vulnerability.package@),
        ensures
            final(self).shown() == old(self).shown().insert(vulnerability.package@),
            final(self).config() == old(self).config(),
            lines_view(final(out)@) == lines_view(old(out)@) + detail_lines(
                *vulnerability,
                id_url(vulnerability.advisory.id@),
            ) + if old(self).config().trees_on() && !old(self).shown().contains(
                vulnerability.package@,
            ) {
                tree_block(*graph, vulnerability.package@, Color::Red)
            } else {
                Seq::empty()
            },
    {
        let derived = advisory_url(vulnerability.advisory.id.as_str());
        push_details(out, vulnerability, derived);
        self.print_tree(Color::Red, &vulnerability.package, graph, out);
    }

    /// Adds the blocks of the vulnerabilities of the list, in order, and
    /// records their releases as shown.
    fn print_vulnerabilities(
        &mut self,
        list: &Vec<Vulnerability>,
        graph: &DependencyGraph,
        out: &mut Vec<Line>,
    )
        requires
            graph.wf(),
            old(self).config().trees_on() ==> forall|k: int|
                0 <= k < list@.len() ==> in_graph(*graph, #[trigger] list@[k].package@),
        ensures
            final(self).config() == old(self).config(),
            final(self).shown() == old(self).shown().union(packages(list@)),
            lines_view(final(out)@) == lines_view(old(out)@) + vulns_lines(
                old(self).config().trees_on(),
                old(self).shown(),
                *graph,
                list@,
            ),
    {
        let ghost trees = self.config().trees_on();
        let ghost shown0 = self.shown();
        let ghost cfg = self.config();
        let ghost head = lines_view(out@);
        let mut i: usize = 0;
        assert(list@.take(0) =~= Seq::<Vulnerability>::empty());
        assert(packages(list@.take(0)) =~= Set::<ReleaseView>::empty());
        assert(shown0.union(Set::<ReleaseView>::empty()) =~= shown0);
        assert(head + Seq::<LineView>::empty() =~= head);
        while i < list.len()
            invariant
                i <= list@.len(),
                graph.wf(),
                cfg == old(self).config(),
                trees == cfg.trees_on(),
                shown0 == old(self).shown(),
                head == lines_view(old(out)@),
                cfg.trees_on() ==> forall|k: int|
                    0 <= k < list@.len() ==> in_graph(*graph, #[trigger] list@[k].package@),
                self.config() == cfg,
                self.shown() == shown0.union(packages(list@.take(i as int))),
                lines_view(out@) == head + vulns_lines(trees, shown0, *graph, list@.take(i as int)),
            decreases list.len() - i,
        {
            let v = &list[i];
            proof {
                lemma_packages_take(list@, i as int);
                lemma_seen_take(shown0, list@, i as int);
                assert(self.shown().contains(v.package@) == seen(shown0, list@, i as int));
                if trees && !self.shown().contains(v.package@) {
                    assert(in_graph(*graph, list@[i as int].package@));
                }
            }
            self.print_vulnerability(v, graph, out);
            proof {
                let t1 = list@.take(i + 1);
                assert(t1.drop_last() =~= list@.take(i as int));
                assert(t1[i as int] == list@[i as int]);
                assert(vuln_block(trees, shown0, *graph, t1, i as int) == vuln_block(
                    trees,
                    shown0,
                    *graph,
                    list@,
                    i as int,
                ));
                assert(vulns_lines(trees, shown0, *graph, t1) == vulns_lines(
                    trees,
                    shown0,
                    *graph,
                    list@.take(i as int),
                ) + vuln_block(trees, shown0, *graph, list@, i as int));
                assert(lines_view(out@) =~= head + vulns_lines(trees, shown0, *graph, t1));
                assert(self.shown() =~= shown0.union(packages(t1)));
            }
            i += 1;
        }
        assert(list@.take(list@.len() as int) =~= list@);
    }

    /// Prints an audit report. In JSON form the report is to be written
    /// out whole and nothing else is shown. On a terminal: a status line
    /// (vulnerable or not); for each vulnerability its details and, the
    /// first time its release comes up and where trees are on, its inverse
    /// dependency tree; the warnings, if any, under a heading; and where
    /// vulnerabilities were found, a summary with their count. Every release
    /// of the report is then recorded as shown.
    pub fn print_report(&mut self, report: &Report, graph: &DependencyGraph) -> (r: Output)
        requires
            graph.wf(),
            old(self).config().format == OutputFormat::Terminal && old(self).config().trees_on()
                ==> forall|k: int|
                0 <= k < report.vulnerabilities.list@.len() ==> in_graph(
                    *graph,
                    #[trigger] report.vulnerabilities.list@[k].package@,
                ),
        ensures
            final(self).config() == old(self).config(),
            old(self).config().format == OutputFormat::Json ==> r is Structured
                && final(self).shown() == old(self).shown(),
            old(self).config().format == OutputFormat::Terminal ==> r is Lines
                && final(self).shown() == old(self).shown().union(
                packages(report.vulnerabilities.list@),
            ),
            r matches Output::Lines(ls) ==> lines_view(ls@) == report_lines(
                old(self).config().trees_on(),
                old(self).shown(),
                *graph,
                *report,
            ),
    {
        if self.config.format == OutputFormat::Json {
            return Output::Structured;
        }
        let ghost trees = self.config().trees_on();
        let ghost shown0 = self.shown();
        let mut out: Vec<Line> = Vec::new();
        let found = report.vulnerabilities.found;
        if found {
            push_line(&mut out, Line::Error { message: text("Vulnerable crates found!") });
        } else {
            push_line(
                &mut out,
                Line::Status {
                    label: text("Success"),
                    message: text("No vulnerable packages found"),
                },
            );
        }
        self.print_vulnerabilities(&report.vulnerabilities.list, graph, &mut out);
        if report.warnings.len() > 0 {
            push_line(&mut out, Line::Blank);
            push_line(
                &mut out,
                Line::Warn { message: text("found informational advisories for dependencies") },
            );
            print_warnings(&mut out, &report.warnings);
        }
        if found {
            push_line(&mut out, Line::Blank);
            push_line(
                &mut out,
                Line::Error { message: summary_message(report.vulnerabilities.count as u64) },
            );
        }
        assert(lines_view(out@) =~= report_lines(trees, shown0, *graph, *report));
        Output::Lines(out)
    }
}

/// The releases of the first `i + 1` vulnerabilities are those of the first
/// `i` and that of vulnerability `i`.
proof fn lemma_packages_take(list: Seq<Vulnerability>, i: int)
    requires
        0 <= i < list.len(),
    ensures
        packages(list.take(i + 1)) == packages(list.take(i)).insert(list[i].package@),
        packages(list.take(i)).contains(list[i].package@) <==> exists|k: int|
            0 <= k < i && #[trigger] list[k].package@ == list[i].package@,
{
    let a = list.take(i);
    let b = list.take(i + 1);
    assert forall|r: ReleaseView| packages(b).contains(r) <==> packages(a).insert(
        list[i].package@,
    ).contains(r) by {
        if packages(b).contains(r) {
            let k = choose|k: int| 0 <= k < b.len() && #[trigger] b[k].package@ == r;
            if k < i {
                assert(a[k] == b[k]);
            }
        }
        if packages(a).contains(r) {
            let k = choose|k: int| 0 <= k < a.len() && #[trigger] a[k].package@ == r;
            assert(b[k] == a[k]);
        }
        if r == list[i].package@ {
            assert(b[i] == list[i]);
        }
    }
    assert(packages(b) =~= packages(a).insert(list[i].package@));
    if packages(a).contains(list[i].package@) {
        let k = choose|k: int| 0 <= k < a.len() && #[trigger] a[k].package@ == list[i].package@;
        assert(list[k] == a[k]);
    }
    if exists|k: int| 0 <= k < i && #[trigger] list[k].package@ == list[i].package@ {
        let k = choose|k: int| 0 <= k < i && #[trigger] list[k].package@ == list[i].package@;
        assert(a[k] == list[k]);
    }
}

/// Whether vulnerability `i` was seen depends only on the vulnerabilities
/// up to it.
proof fn lemma_seen_take(shown: Set<ReleaseView>, list: Seq<Vulnerability>, i: int)
    requires
        0 <= i < list.len(),
    ensures
        seen(shown, list.take(i + 1), i) == seen(shown, list, i),
{
    let b = list.take(i + 1);
    assert(b[i] == list[i]);
    if exists|k: int| 0 <= k < i && #[trigger] list[k].package@ == list[i].package@ {
        let k = choose|k: int| 0 <= k < i && #[trigger] list[k].package@ == list[i].package@;
        assert(b[k] == list[k]);
    }
    if exists|k: int| 0 <= k < i && #[trigger] b[k].package@ == b[i].package@ {
        let k = choose|k: int| 0 <= k < i && #[trigger] b[k].package@ == b[i].package@;
        assert(b[k] == list[k]);
    }
}

} // verus!
