//! The dependency graph of a lockfile: one node per release, and for each node
//! the nodes that depend on it, in the order of releases.
use vstd::prelude::*;
use crate::release::{release_lt, Release, ReleaseView};

verus! {

/// Why a graph could not be built.
#[derive(Clone, Copy, Debug, PartialEq, Eq)]
pub enum GraphError {
    /// An edge names a node that does not exist.
    UnknownNode,
}

/// A dependency graph. Node `i` stands for `releases[i]`; `dependents[i]`
/// lists the nodes that depend on node `i`.
pub struct DependencyGraph {
    pub releases: Vec<Release>,
    pub dependents: Vec<Vec<usize>>,
}

/// The views of a sequence of releases.
pub open spec fn release_views(rs: Seq<Release>) -> Seq<ReleaseView> {
    rs.map_values(|r: Release| r@)
}

/// Each node of `list` comes no earlier than the one before it, in the order
/// of the releases they stand for.
pub open spec fn ascending(list: Seq<usize>, rels: Seq<ReleaseView>) -> bool {
    forall|j: int|
        0 <= j < list.len() - 1 ==> !release_lt(
            #[trigger] rels[list[j + 1] as int],
            rels[list[j] as int],
        )
}

/// A well-formed list of dependents among `n` nodes.
pub open spec fn valid_list(list: Seq<usize>, rels: Seq<ReleaseView>) -> bool {
    &&& forall|j: int| 0 <= j < list.len() ==> #[trigger] list[j] < rels.len()
    &&& list.no_duplicates()
    &&& ascending(list, rels)
}

/// `d` depends on `t` according to the edge list (an edge `(d, t)` says that
/// `d` depends on `t`).
pub open spec fn has_edge(edges: Seq<(usize, usize)>, d: usize, t: usize) -> bool {
    exists|k: int| 0 <= k < edges.len() && #[trigger] edges[k] == (d, t)
}

/// Every edge names two nodes of `0..n`.
pub open spec fn edges_in_range(edges: Seq<(usize, usize)>, n: nat) -> bool {
    forall|k: int| 0 <= k < edges.len() ==> (#[trigger] edges[k]).0 < n && edges[k].1 < n
}

/// The first node from `i` on whose release is `r` (the node count where
/// there is none).
pub open spec fn first_from(rels: Seq<ReleaseView>, r: ReleaseView, i: int) -> int
    decreases rels.len() - i,
{
    if i < 0 || i >= rels.len() {
        rels.len() as int
    } else if rels[i] == r {
        i
    } else {
        first_from(rels, r, i + 1)
    }
}

impl DependencyGraph {
    /// The releases of the nodes, as views.
    pub open spec fn rels(&self) -> Seq<ReleaseView> {
        release_views(self.releases@)
    }

    /// The number of nodes.
    pub open spec fn node_count(&self) -> nat {
        self.releases@.len()
    }

    /// The lists of dependents, as sequences.
    pub open spec fn dep_lists(&self) -> Seq<Seq<usize>> {
        self.dependents@.map_values(|v: Vec<usize>| v@)
    }

    /// The dependents of node `i`.
    pub open spec fn deps(&self, i: int) -> Seq<usize> {
        self.dependents@[i]@
    }

    /// Every list of dependents names nodes of the graph, once each, in the
    /// order of their releases.
    pub open spec fn wf(&self) -> bool {
        &&& self.dependents@.len() == self.releases@.len()
        &&& forall|i: int|
            0 <= i < self.node_count() ==> valid_list(#[trigger] self.deps(i), self.rels())
    }

    /// Builds the graph of `releases` from edges `(d, t)`, each saying that
    /// node `d` depends on node `t`. Fails when an edge names a node that
    /// does not exist.
    pub fn new(releases: Vec<Release>, edges: &Vec<(usize, usize)>) -> (r: Result<
        DependencyGraph,
        GraphError,
    >)
        ensures
            r is Ok <==> edges_in_range(edges@, releases@.len()),
            r matches Ok(g) ==> {
                &&& g.wf()
                &&& g.releases@ == releases@
                &&& forall|t: int, d: usize|
                    0 <= t < g.node_count() ==> (#[trigger] g.deps(t).contains(d) <==> has_edge(
                        edges@,
                        d,
                        t as usize,
                    ))
            },
    {
        let n = releases.len();
        let mut k: usize = 0;
        while k < edges.len()
            invariant
                k <= edges.len(),
                n == releases@.len(),
                edges_in_range(edges@.take(k as int), n as nat),
            decreases edges.len() - k,
        {
            let (d, t) = edges[k];
            if d >= n || t >= n {
                assert(!edges_in_range(edges@, n as nat));
                return Err(GraphError::UnknownNode);
            }
            assert(edges@.take(k + 1) =~= edges@.take(k as int).push(edges@[k as int]));
            k += 1;
        }
        assert(edges@.take(edges@.len() as int) =~= edges@);
        let mut dependents: Vec<Vec<usize>> = Vec::new();
        let ghost rels = release_views(releases@);
        let mut t: usize = 0;
        while t < n
            invariant
                t <= n,
                n == releases@.len(),
                rels == release_views(releases@),
                edges_in_range(edges@, n as nat),
                dependents@.len() == t,
                forall|i: int| 0 <= i < t ==> valid_list(#[trigger] dependents@[i]@, rels),
                forall|i: int, d: usize|
                    0 <= i < t ==> (#[trigger] dependents@[i]@.contains(d) <==> has_edge(
                        edges@,
                        d,
                        i as usize,
                    )),
            decreases n - t,
        {
            let mut list: Vec<usize> = Vec::new();
            let mut k: usize = 0;
            while k < edges.len()
                invariant
                    k <= edges.len(),
                    t < n,
                    n == releases@.len(),
                    rels == release_views(releases@),
                    edges_in_range(edges@, n as nat),
                    valid_list(list@, rels),
                    forall|d: usize|
                        #[trigger] list@.contains(d) <==> exists|j: int|
                            0 <= j < k && #[trigger] edges@[j] == (d, t),
                decreases edges.len() - k,
            {
                let (d, tt) = edges[k];
                assert(edges@[k as int].0 < n);
                if tt == t {
                    insert_sorted(&mut list, d, &releases);
                }
                assert forall|x: usize| #[trigger]
                    list@.contains(x) <==> exists|j: int|
                        0 <= j < k + 1 && #[trigger] edges@[j] == (x, t) by {
                    if exists|j: int| 0 <= j < k + 1 && #[trigger] edges@[j] == (x, t) {
                        let j = choose|j: int| 0 <= j < k + 1 && #[trigger] edges@[j] == (x, t);
                        if j < k {
                        } else {
                            assert(list@.contains(x));
                        }
                    }
                }
                k += 1;
            }
            dependents.push(list);
            t += 1;
        }
        let g = DependencyGraph { releases, dependents };
        assert forall|i: int| 0 <= i < g.node_count() implies valid_list(
            #[trigger] g.deps(i),
            g.rels(),
        ) by {
            assert(dependents@[i]@ == g.deps(i));
        }
        assert forall|i: int, d: usize| 0 <= i < g.node_count() implies (#[trigger] g.deps(
            i,
        ).contains(d) <==> has_edge(edges@, d, i as usize)) by {
            assert(dependents@[i]@ == g.deps(i));
        }
        Ok(g)
    }

    /// The node that stands for `release`, if the graph has one.
    pub fn node_of(&self, release: &Release) -> (r: Option<usize>)
        ensures
            r matches Some(i) ==> i < self.node_count() && self.rels()[i as int] == release@ && i
                == first_from(self.rels(), release@, 0),
            r is None ==> forall|i: int|
                0 <= i < self.node_count() ==> self.rels()[i] != release@,
    {
        let mut i: usize = 0;
        while i < self.releases.len()
            invariant
                i <= self.releases@.len(),
                forall|j: int| 0 <= j < i ==> self.rels()[j] != release@,
                first_from(self.rels(), release@, 0) == first_from(self.rels(), release@, i as int),
            decreases self.releases.len() - i,
        {
            if self.releases[i].same(release) {
                return Some(i);
            }
            i += 1;
        }
        None
    }
}

/// Adds node `x` to a list of dependents, keeping it in the order of releases
/// and free of repeats.
fn insert_sorted(list: &mut Vec<usize>, x: usize, releases: &Vec<Release>)
    requires
        x < releases@.len(),
        valid_list(old(list)@, release_views(releases@)),
    ensures
        valid_list(final(list)@, release_views(releases@)),
        forall|d: usize| #[trigger]
            final(list)@.contains(d) <==> (old(list)@.contains(d) || d == x),
{
    let ghost rels = release_views(releases@);
    let mut i: usize = 0;
    while i < list.len()
        invariant
            i <= list@.len(),
            rels == release_views(releases@),
            valid_list(list@, rels),
            forall|j: int| 0 <= j < i ==> list@[j] != x,
        decreases list.len() - i,
    {
        if list[i] == x {
            return;
        }
        i += 1;
    }
    assert(!list@.contains(x));
    let mut p: usize = 0;
    let mut stop = false;
    while p < list.len() && !stop
        invariant
            p <= list@.len(),
            stop ==> p < list@.len() && release_lt(rels[x as int], rels[list@[p as int] as int])
                && !release_lt(rels[list@[p as int] as int], rels[x as int]),
            x < releases@.len(),
            rels == release_views(releases@),
            valid_list(list@, rels),
            forall|j: int| 0 <= j < p ==> !release_lt(rels[x as int], #[trigger] rels[list@[j] as int]),
        decreases list.len() - p + (if stop { 0int } else { 1int }),
    {
        if releases[x].precedes(&releases[list[p]]) {
            stop = true;
        } else {
            p += 1;
        }
    }
    let ghost old_list = list@;
    list.insert(p, x);
    let ghost nl = list@;
    assert(nl == old_list.insert(p as int, x));
    assert forall|j: int| 0 <= j < nl.len() implies #[trigger] nl[j] < rels.len() by {
        if j < p {
            assert(nl[j] == old_list[j]);
        } else if j > p {
            assert(nl[j] == old_list[j - 1]);
        }
    }
    assert forall|j: int| 0 <= j < nl.len() - 1 implies !release_lt(
        #[trigger] rels[nl[j + 1] as int],
        rels[nl[j] as int],
    ) by {
        if j + 1 < p {
            assert(nl[j] == old_list[j] && nl[j + 1] == old_list[j + 1]);
            assert(!release_lt(rels[old_list[j + 1] as int], rels[old_list[j] as int]));
        } else if j + 1 == p {
            assert(nl[j] == old_list[j]);
            assert(!release_lt(rels[x as int], rels[old_list[j] as int]));
        } else if j == p {
            assert(nl[j + 1] == old_list[j]);
            assert(!release_lt(rels[old_list[j] as int], rels[x as int]));
        } else {
            assert(nl[j] == old_list[j - 1] && nl[j + 1] == old_list[j]);
            let i = j - 1;
            assert(!release_lt(rels[old_list[i + 1] as int], rels[old_list[i] as int]));
        }
    }
    assert forall|a: int, b: int| 0 <= a < nl.len() && 0 <= b < nl.len() && a != b implies nl[a]
        != nl[b] by {
        if a != p && b != p {
            let oa = if a < p { a } else { a - 1 };
            let ob = if b < p { b } else { b - 1 };
            assert(nl[a] == old_list[oa] && nl[b] == old_list[ob]);
        } else if a == p {
            let ob = if b < p { b } else { b - 1 };
            assert(nl[b] == old_list[ob]);
        } else {
            let oa = if a < p { a } else { a - 1 };
            assert(nl[a] == old_list[oa]);
        }
    }
    assert forall|d: usize| #[trigger] nl.contains(d) <==> (old_list.contains(d) || d == x) by {
        if old_list.contains(d) {
            let j = choose|j: int| 0 <= j < old_list.len() && old_list[j] == d;
            if j < p {
                assert(nl[j] == d);
            } else {
                assert(nl[j + 1] == d);
            }
        }
        if d == x {
            assert(nl[p as int] == x);
        }
        if nl.contains(d) {
            let j = choose|j: int| 0 <= j < nl.len() && nl[j] == d;
            if j < p {
                assert(old_list[j] == d);
            } else if j > p {
                assert(old_list[j - 1] == d);
            }
        }
    }
}

} // verus!
