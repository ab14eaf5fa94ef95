//! Laws of the presentation: each tree is shown once, and turning trees off
//! removes the tree blocks and nothing else.
use vstd::prelude::*;
use crate::graph::DependencyGraph;
use crate::presenter::{
    detail_lines, id_url, report_lines, tree_due, vuln_block, vulns_lines, warning_lines,
    warnings_lines, LineView, Report, Vulnerability, seen,
};
use crate::release::ReleaseView;

verus! {

/// The line belongs to a dependency tree block.
pub open spec fn is_tree_line(l: LineView) -> bool {
    l is TreeHeader || l is Tree
}

/// The lines with every tree block line taken out.
pub open spec fn without_trees(ls: Seq<LineView>) -> Seq<LineView>
    decreases ls.len(),
{
    if ls.len() == 0 {
        ls
    } else if is_tree_line(ls.last()) {
        without_trees(ls.drop_last())
    } else {
        without_trees(ls.drop_last()).push(ls.last())
    }
}

proof fn lemma_without_add(a: Seq<LineView>, b: Seq<LineView>)
    ensures
        without_trees(a + b) == without_trees(a) + without_trees(b),
    decreases b.len(),
{
    if b.len() == 0 {
        assert(a + b =~= a);
        assert(without_trees(a) + without_trees(b) =~= without_trees(a));
    } else {
        assert((a + b).drop_last() =~= a + b.drop_last());
        assert((a + b).last() == b.last());
        lemma_without_add(a, b.drop_last());
        if !is_tree_line(b.last()) {
            assert(without_trees(a) + without_trees(b.drop_last()).push(b.last()) =~= (
            without_trees(a) + without_trees(b.drop_last())).push(b.last()));
        }
    }
}

proof fn lemma_without_plain(a: Seq<LineView>)
    requires
        forall|i: int| 0 <= i < a.len() ==> !is_tree_line(#[trigger] a[i]),
    ensures
        without_trees(a) == a,
    decreases a.len(),
{
    if a.len() > 0 {
        lemma_without_plain(a.drop_last());
        assert(a.drop_last().push(a.last()) =~= a);
    }
}

proof fn lemma_without_tree(a: Seq<LineView>)
    requires
        forall|i: int| 0 <= i < a.len() ==> is_tree_line(#[trigger] a[i]),
    ensures
        without_trees(a) == Seq::<LineView>::empty(),
    decreases a.len(),
{
    if a.len() > 0 {
        lemma_without_tree(a.drop_last());
    }
}

proof fn lemma_warnings_plain(ws: Seq<crate::presenter::Warning>)
    ensures
        forall|i: int|
            0 <= i < warnings_lines(ws).len() ==> !is_tree_line(#[trigger] warnings_lines(ws)[i]),
    decreases ws.len(),
{
    if ws.len() > 0 {
        lemma_warnings_plain(ws.drop_last());
        let a = warnings_lines(ws.drop_last());
        let b = warning_lines(ws.last());
        assert forall|i: int| 0 <= i < (a + b).len() implies !is_tree_line(#[trigger] (a + b)[i]) by {
            if i >= a.len() {
                assert((a + b)[i] == b[i - a.len()]);
            }
        }
    }
}

proof fn lemma_vulns_without(
    shown: Set<ReleaseView>,
    g: DependencyGraph,
    list: Seq<Vulnerability>,
)
    ensures
        vulns_lines(false, shown, g, list) == without_trees(vulns_lines(true, shown, g, list)),
    decreases list.len(),
{
    if list.len() == 0 {
        assert(without_trees(Seq::<LineView>::empty()) == Seq::<LineView>::empty());
    } else {
        let j = list.len() - 1;
        lemma_vulns_without(shown, g, list.drop_last());
        let d = detail_lines(list[j], id_url(list[j].advisory.id@));
        let on = vuln_block(true, shown, g, list, j);
        assert(vuln_block(false, shown, g, list, j) =~= d);
        let tail = on.subrange(d.len() as int, on.len() as int);
        assert(on =~= d + tail);
        assert forall|i: int| 0 <= i < d.len() implies !is_tree_line(#[trigger] d[i]) by {}
        lemma_without_plain(d);
        assert forall|i: int| 0 <= i < tail.len() implies is_tree_line(#[trigger] tail[i]) by {
            if tree_due(true, shown, list, j) {
                assert(tail[i] == on[d.len() + i]);
            }
        }
        lemma_without_tree(tail);
        lemma_without_add(d, tail);
        lemma_without_add(vulns_lines(true, shown, g, list.drop_last()), on);
        assert(d + Seq::<LineView>::empty() =~= d);
    }
}

/// Turning trees off changes nothing in a report's lines but taking out
/// every dependency tree block: the lines with trees off are those with
/// trees on, with the tree lines left out.
pub proof fn lemma_trees_off(shown: Set<ReleaseView>, g: DependencyGraph, rep: Report)
    ensures
        report_lines(false, shown, g, rep) == without_trees(report_lines(true, shown, g, rep)),
{
    let list = rep.vulnerabilities.list@;
    let on = report_lines(true, shown, g, rep);
    let head = if rep.vulnerabilities.found {
        seq![LineView::Error { message: "Vulnerable crates found!"@ }]
    } else {
        seq![LineView::Status { label: "Success"@, message: "No vulnerable packages found"@ }]
    };
    let warn = if rep.warnings@.len() > 0 {
        seq![
            LineView::Blank,
            LineView::Warn { message: "found informational advisories for dependencies"@ },
        ] + warnings_lines(rep.warnings@)
    } else {
        Seq::empty()
    };
    let tail = if rep.vulnerabilities.found {
        seq![
            LineView::Blank,
            LineView::Error { message: crate::presenter::summary(rep.vulnerabilities.count as nat) },
        ]
    } else {
        Seq::empty()
    };
    assert(on == head + vulns_lines(true, shown, g, list) + warn + tail);
    assert(report_lines(false, shown, g, rep) == head + vulns_lines(false, shown, g, list) + warn
        + tail);
    lemma_warnings_plain(rep.warnings@);
    assert forall|i: int| 0 <= i < head.len() implies !is_tree_line(#[trigger] head[i]) by {}
    assert forall|i: int| 0 <= i < tail.len() implies !is_tree_line(#[trigger] tail[i]) by {}
    assert forall|i: int| 0 <= i < warn.len() implies !is_tree_line(#[trigger] warn[i]) by {
        if rep.warnings@.len() > 0 && i >= 2 {
            assert(warn[i] == warnings_lines(rep.warnings@)[i - 2]);
        }
    }
    lemma_without_plain(head);
    lemma_without_plain(warn);
    lemma_without_plain(tail);
    lemma_vulns_without(shown, g, list);
    let v = vulns_lines(true, shown, g, list);
    lemma_without_add(head, v);
    lemma_without_add(head + v, warn);
    lemma_without_add(head + v + warn, tail);
}

/// Finds the first vulnerability of the list, up to `j`, whose release is
/// that of vulnerability `j`.
proof fn first_of(shown: Set<ReleaseView>, list: Seq<Vulnerability>, j: int) -> (k: int)
    requires
        0 <= j < list.len(),
    ensures
        0 <= k <= j,
        list[k].package@ == list[j].package@,
        !seen(shown, list, k) || shown.contains(list[j].package@),
    decreases j,
{
    if exists|i: int| 0 <= i < j && #[trigger] list[i].package@ == list[j].package@ {
        let i = choose|i: int| 0 <= i < j && #[trigger] list[i].package@ == list[j].package@;
        first_of(shown, list, i)
    } else {
        j
    }
}

/// The dependency tree of a release is shown at most once in a report, for
/// however many vulnerabilities name it; and where trees are on and the
/// release was not shown before, it is shown for one of them.
pub proof fn lemma_tree_once(
    trees: bool,
    shown: Set<ReleaseView>,
    list: Seq<Vulnerability>,
    p: ReleaseView,
)
    ensures
        forall|i: int, j: int|
            0 <= i < list.len() && 0 <= j < list.len() && list[i].package@ == p
                && list[j].package@ == p && tree_due(trees, shown, list, i) && tree_due(
                trees,
                shown,
                list,
                j,
            ) ==> i == j,
        trees && !shown.contains(p) && (exists|j: int|
            0 <= j < list.len() && #[trigger] list[j].package@ == p) ==> exists|k: int|
            0 <= k < list.len() && list[k].package@ == p && #[trigger] tree_due(
                trees,
                shown,
                list,
                k,
            ),
{
    assert forall|i: int, j: int|
        0 <= i < list.len() && 0 <= j < list.len() && list[i].package@ == p && list[j].package@
            == p && tree_due(trees, shown, list, i) && tree_due(trees, shown, list, j) implies i
        == j by {
        if i < j {
            assert(list[i].package@ == list[j].package@);
        } else if j < i {
            assert(list[j].package@ == list[i].package@);
        }
    }
    if trees && !shown.contains(p) && (exists|j: int|
        0 <= j < list.len() && #[trigger] list[j].package@ == p) {
        let j = choose|j: int| 0 <= j < list.len() && #[trigger] list[j].package@ == p;
        let k = first_of(shown, list, j);
        assert(tree_due(trees, shown, list, k));
    }
}

} // verus!
