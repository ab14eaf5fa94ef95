//! The inverse dependency tree: a release, the releases that depend on it,
//! those that depend on them, and so on.
use vstd::prelude::*;
use vstd::set_lib::{lemma_int_range, lemma_len_subset, lemma_subset_equality, set_int_range};
use crate::graph::DependencyGraph;
use crate::release::{release_text, ReleaseView};
use crate::text::push_char;

verus! {

/// One row of a tree: for each enclosing level, whether more siblings follow
/// at that level; and the node shown.
pub struct Row {
    pub levels: Vec<bool>,
    pub node: usize,
}

/// A row as mathematical values.
pub open spec fn row_view(r: Row) -> (Seq<bool>, usize) {
    (r.levels@, r.node)
}

/// The views of a sequence of rows.
pub open spec fn rows_view(rs: Seq<Row>) -> Seq<(Seq<bool>, usize)> {
    rs.map_values(|r: Row| row_view(r))
}

/// The rows of the tree below `node`: the node itself, then, unless it is
/// already on the path from the root (or the depth bound `fuel` is spent),
/// the trees of its dependents in order, one level deeper.
pub open spec fn node_rows(
    deps: Seq<Seq<usize>>,
    node: usize,
    path: Seq<usize>,
    levels: Seq<bool>,
    fuel: nat,
) -> Seq<(Seq<bool>, usize)>
    decreases fuel, 0int,
{
    seq![(levels, node)] + if path.contains(node) || fuel == 0 {
        Seq::empty()
    } else {
        children_rows(deps, node, path.push(node), levels, (fuel - 1) as nat, 0)
    }
}

/// The trees of the dependents of `node` from the `k`-th on.
pub open spec fn children_rows(
    deps: Seq<Seq<usize>>,
    node: usize,
    path: Seq<usize>,
    levels: Seq<bool>,
    fuel: nat,
    k: int,
) -> Seq<(Seq<bool>, usize)>
    decreases fuel, deps[node as int].len() - k,
{
    if k < 0 || k >= deps[node as int].len() {
        Seq::empty()
    } else {
        node_rows(
            deps,
            deps[node as int][k],
            path,
            levels.push(k + 1 < deps[node as int].len()),
            fuel,
        ) + children_rows(deps, node, path, levels, fuel, k + 1)
    }
}

/// The rows of the inverse dependency tree rooted at `root`. The depth is
/// bounded by the number of nodes, which no path without repeats reaches.
pub open spec fn tree_rows(g: DependencyGraph, root: usize) -> Seq<(Seq<bool>, usize)> {
    node_rows(g.dep_lists(), root, Seq::empty(), Seq::empty(), g.node_count())
}

/// The depth bound of a tree never stops a node from being expanded: below
/// the root, the path holds distinct nodes and the bound left is the node
/// count less the path's length; a node that is not on the path then always
/// has depth left.
pub proof fn lemma_depth_left(g: DependencyGraph, path: Seq<usize>, node: usize, fuel: nat)
    requires
        path.no_duplicates(),
        forall|j: int| 0 <= j < path.len() ==> #[trigger] path[j] < g.node_count(),
        node < g.node_count(),
        !path.contains(node),
        path.len() + fuel == g.node_count(),
    ensures
        fuel > 0,
{
    let n = g.node_count();
    let ints = path.map_values(|x: usize| x as int);
    assert forall|a: int, b: int| 0 <= a < ints.len() && 0 <= b < ints.len() && a != b implies ints[a]
        != ints[b] by {
        assert(path[a] != path[b]);
    }
    assert(ints.no_duplicates());
    ints.unique_seq_to_set();
    let s = ints.to_set();
    let full = set_int_range(0, n as int);
    lemma_int_range(0, n as int);
    assert forall|x: int| s.contains(x) implies full.contains(x) by {
        let j = choose|j: int| 0 <= j < ints.len() && ints[j] == x;
        assert(path[j] < n);
    }
    lemma_len_subset(s, full);
    if fuel == 0 {
        lemma_subset_equality(s, full);
        assert(full.contains(node as int));
        assert(s.contains(node as int));
        let j = choose|j: int| 0 <= j < ints.len() && ints[j] == node as int;
        assert(path[j] == node);
    }
}

fn on_path(path: &Vec<usize>, node: usize) -> (r: bool)
    ensures
        r == path@.contains(node),
{
    let mut i: usize = 0;
    while i < path.len()
        invariant
            i <= path@.len(),
            forall|j: int| 0 <= j < i ==> path@[j] != node,
        decreases path.len() - i,
    {
        if path[i] == node {
            return true;
        }
        i += 1;
    }
    false
}

fn copy_levels(v: &Vec<bool>) -> (r: Vec<bool>)
    ensures
        r@ == v@,
{
    let mut r: Vec<bool> = Vec::new();
    let mut i: usize = 0;
    while i < v.len()
        invariant
            i <= v@.len(),
            r@ == v@.take(i as int),
        decreases v.len() - i,
    {
        r.push(v[i]);
        assert(v@.take(i + 1) =~= v@.take(i as int).push(v@[i as int]));
        i += 1;
    }
    assert(v@.take(v@.len() as int) =~= v@);
    r
}

fn render_node(
    graph: &DependencyGraph,
    node: usize,
    path: &mut Vec<usize>,
    levels: &mut Vec<bool>,
    fuel: usize,
    out: &mut Vec<Row>,
)
    requires
        graph.wf(),
        node < graph.node_count(),
        forall|j: int| 0 <= j < old(out)@.len() ==> old(out)@[j].node < graph.node_count(),
    ensures
        forall|j: int| 0 <= j < final(out)@.len() ==> final(out)@[j].node < graph.node_count(),
        final(path)@ == old(path)@,
        final(levels)@ == old(levels)@,
        rows_view(final(out)@) == rows_view(old(out)@) + node_rows(
            graph.dep_lists(),
            node,
            old(path)@,
            old(levels)@,
            fuel as nat,
        ),
    decreases fuel,
{
    let ghost deps = graph.dep_lists();
    let ghost out0 = rows_view(out@);
    let row = Row { levels: copy_levels(levels), node };
    out.push(row);
    assert(rows_view(out@) =~= out0 + seq![(levels@, node)]);
    if on_path(path, node) || fuel == 0 {
        assert(rows_view(out@) =~= out0 + node_rows(deps, node, path@, levels@, fuel as nat));
        return;
    }
    let ghost path0 = path@;
    let ghost levels0 = levels@;
    let ghost out1 = rows_view(out@);
    path.push(node);
    let list = &graph.dependents[node];
    assert(list@ == deps[node as int]);
    assert(list@ == graph.deps(node as int));
    let len = list.len();
    let mut k: usize = 0;
    while k < len
        invariant
            graph.wf(),
            node < graph.node_count(),
            deps == graph.dep_lists(),
            list@ == deps[node as int],
            list@ == graph.deps(node as int),
            len == list@.len(),
            k <= len,
            path@ == path0.push(node),
            levels@ == levels0,
            fuel > 0,
            forall|j: int| 0 <= j < out@.len() ==> out@[j].node < graph.node_count(),
            rows_view(out@) + children_rows(deps, node, path@, levels@, (fuel - 1) as nat, k as int)
                == out1 + children_rows(deps, node, path@, levels@, (fuel - 1) as nat, 0),
        decreases len - k,
    {
        let child = list[k];
        assert(child < graph.node_count());
        let ghost before = rows_view(out@);
        levels.push(k + 1 < len);
        render_node(graph, child, path, levels, fuel - 1, out);
        levels.pop();
        assert(levels@ =~= levels0);
        let ghost here = node_rows(deps, child, path@, levels0.push(k + 1 < len), (fuel - 1) as nat);
        assert(children_rows(deps, node, path@, levels@, (fuel - 1) as nat, k as int) == here
            + children_rows(deps, node, path@, levels@, (fuel - 1) as nat, k + 1));
        assert(rows_view(out@) == before + here);
        assert((before + here) + children_rows(deps, node, path@, levels@, (fuel - 1) as nat, k + 1)
            =~= before + (here + children_rows(deps, node, path@, levels@, (fuel - 1) as nat, k + 1)));
        k += 1;
    }
    path.pop();
    assert(path@ =~= path0);
    assert(children_rows(deps, node, path0.push(node), levels0, (fuel - 1) as nat, len as int)
        =~= Seq::empty());
    assert(rows_view(out@) =~= out1 + children_rows(deps, node, path0.push(node), levels0, (fuel - 1) as nat, 0));
    assert(rows_view(out@) =~= out0 + node_rows(deps, node, path0, levels0, fuel as nat));
}

/// Computes the rows of the inverse dependency tree rooted at `root`.
pub fn render_tree(graph: &DependencyGraph, root: usize) -> (r: Vec<Row>)
    requires
        graph.wf(),
        root < graph.node_count(),
    ensures
        rows_view(r@) == tree_rows(*graph, root),
        forall|j: int| 0 <= j < r@.len() ==> r@[j].node < graph.node_count(),
{
    let mut out: Vec<Row> = Vec::new();
    let mut path: Vec<usize> = Vec::new();
    let mut levels: Vec<bool> = Vec::new();
    render_node(graph, root, &mut path, &mut levels, graph.releases.len(), &mut out);
    assert(rows_view(Seq::<Row>::empty()) =~= Seq::empty());
    assert(rows_view(out@) =~= tree_rows(*graph, root));
    out
}

/// The indent of the enclosing levels: a rule where more siblings follow at
/// that level, blank otherwise; four characters each.
pub open spec fn indent(levels: Seq<bool>) -> Seq<char>
    decreases levels.len(),
{
    if levels.len() == 0 {
        Seq::empty()
    } else {
        indent(levels.drop_last()) + if levels.last() {
            seq!['│', ' ', ' ', ' ']
        } else {
            seq![' ', ' ', ' ', ' ']
        }
    }
}

/// What stands before a node: nothing for the root; else the indent of the
/// enclosing levels and a branch, a tee where more siblings follow and an
/// elbow for the last one.
pub open spec fn branch(levels: Seq<bool>) -> Seq<char> {
    if levels.len() == 0 {
        Seq::empty()
    } else {
        indent(levels.drop_last()) + if levels.last() {
            seq!['├', '─', '─', ' ']
        } else {
            seq!['└', '─', '─', ' ']
        }
    }
}

/// The text of a row showing release `r`.
pub open spec fn row_text(levels: Seq<bool>, r: ReleaseView) -> Seq<char> {
    branch(levels) + release_text(r)
}

/// The text lines of the inverse dependency tree rooted at `root`.
pub open spec fn tree_text(g: DependencyGraph, root: usize) -> Seq<Seq<char>> {
    tree_rows(g, root).map_values(|row: (Seq<bool>, usize)| row_text(row.0, g.rels()[row.1 as int]))
}

fn push_quad(s: &mut String, a: char, b: char)
    ensures
        final(s)@ == old(s)@ + seq![a, b, b, ' '],
{
    push_char(s, a);
    push_char(s, b);
    push_char(s, b);
    push_char(s, ' ');
    assert(final(s)@ =~= old(s)@ + seq![a, b, b, ' ']);
}

/// The text of a row showing node `node` of the graph.
pub fn format_row(graph: &DependencyGraph, levels: &Vec<bool>, node: usize) -> (r: String)
    requires
        node < graph.node_count(),
    ensures
        r@ == row_text(levels@, graph.rels()[node as int]),
{
    let mut s = String::new();
    let n = levels.len();
    if n > 0 {
        let mut i: usize = 0;
        while i < n - 1
            invariant
                n == levels@.len(),
                n > 0,
                i <= n - 1,
                s@ == indent(levels@.take(i as int)),
            decreases n - 1 - i,
        {
            if levels[i] {
                push_quad(&mut s, '│', ' ');
            } else {
                push_quad(&mut s, ' ', ' ');
            }
            assert(levels@.take(i + 1).drop_last() =~= levels@.take(i as int));
            i += 1;
        }
        if levels[n - 1] {
            push_quad(&mut s, '├', '─');
        } else {
            push_quad(&mut s, '└', '─');
        }
        assert(levels@.drop_last() =~= levels@.take(n - 1));
    }
    let t = graph.releases[node].to_text();
    s.append(t.as_str());
    proof {
        assert(graph.rels()[node as int] == graph.releases@[node as int]@);
        assert(s@ =~= row_text(levels@, graph.rels()[node as int]));
    }
    s
}

/// The text lines of the inverse dependency tree rooted at `root`.
pub fn tree_lines(graph: &DependencyGraph, root: usize) -> (r: Vec<String>)
    requires
        graph.wf(),
        root < graph.node_count(),
    ensures
        r.deep_view() == tree_text(*graph, root),
{
    let rows = render_tree(graph, root);
    let ghost want = tree_text(*graph, root);
    let mut out: Vec<String> = Vec::new();
    let mut i: usize = 0;
    while i < rows.len()
        invariant
            i <= rows@.len(),
            rows_view(rows@) == tree_rows(*graph, root),
            forall|j: int| 0 <= j < rows@.len() ==> rows@[j].node < graph.node_count(),
            want == tree_text(*graph, root),
            graph.wf(),
            out.deep_view() == want.take(i as int),
        decreases rows.len() - i,
    {
        let row = &rows[i];
        assert(rows_view(rows@)[i as int] == row_view(*row));
        let line = format_row(graph, &row.levels, row.node);
        let ghost prev = out.deep_view();
        out.push(line);
        assert(tree_rows(*graph, root)[i as int] == (row.levels@, row.node));
        assert(want[i as int] == line@);
        assert(out.deep_view() =~= prev.push(line@));
        assert(out.deep_view() =~= want.take(i + 1));
        i += 1;
    }
    assert(want.take(rows@.len() as int) =~= want);
    out
}
} // verus!
