use audit_presenter::graph::{DependencyGraph, GraphError};
use audit_presenter::release::{Release, Version};
use audit_presenter::tree::{format_row, render_tree, tree_lines};

fn rel(name: &str, major: u64, minor: u64, patch: u64) -> Release {
    Release {
        name: name.to_string(),
        version: Version { major, minor, patch, pre: String::new(), build: String::new() },
    }
}

/// A depends on B and C; B and C depend on D.
fn diamond() -> DependencyGraph {
    let releases = vec![rel("d", 1, 0, 0), rel("c", 0, 2, 0), rel("b", 0, 1, 0), rel("a", 3, 0, 0)];
    let edges = vec![(3, 2), (3, 1), (2, 0), (1, 0)];
    DependencyGraph::new(releases, &edges).unwrap()
}

#[test]
fn diamond_tree_shows_every_path() {
    let g = diamond();
    let lines = tree_lines(&g, 0);
    assert_eq!(
        lines,
        vec![
            "d 1.0.0".to_string(),
            "├── b 0.1.0".to_string(),
            "│   └── a 3.0.0".to_string(),
            "└── c 0.2.0".to_string(),
            "    └── a 3.0.0".to_string(),
        ]
    );
}

#[test]
fn diamond_tree_contains_every_node() {
    let g = diamond();
    let rows = render_tree(&g, 0);
    for node in 0..4 {
        assert!(rows.iter().any(|r| r.node == node));
    }
}

#[test]
fn cycle_stops_at_node_on_path() {
    // x depends on y, y depends on x.
    let releases = vec![rel("x", 1, 0, 0), rel("y", 1, 0, 0)];
    let g = DependencyGraph::new(releases, &vec![(0, 1), (1, 0)]).unwrap();
    let lines = tree_lines(&g, 0);
    assert_eq!(
        lines,
        vec!["x 1.0.0".to_string(), "└── y 1.0.0".to_string(), "    └── x 1.0.0".to_string()]
    );
}

#[test]
fn self_loop_terminates() {
    let g = DependencyGraph::new(vec![rel("s", 0, 0, 1)], &vec![(0, 0)]).unwrap();
    assert_eq!(tree_lines(&g, 0), vec!["s 0.0.1".to_string(), "└── s 0.0.1".to_string()]);
}

#[test]
fn dependents_ordered_by_name_then_version() {
    let releases = vec![
        rel("root", 1, 0, 0),
        rel("zeta", 1, 0, 0),
        rel("alpha", 2, 0, 0),
        rel("alpha", 1, 10, 0),
        rel("alpha", 1, 9, 0),
    ];
    let edges = vec![(1, 0), (2, 0), (3, 0), (4, 0)];
    let g = DependencyGraph::new(releases, &edges).unwrap();
    assert_eq!(g.dependents[0], vec![4, 3, 2, 1]);
    assert_eq!(
        tree_lines(&g, 0),
        vec![
            "root 1.0.0".to_string(),
            "├── alpha 1.9.0".to_string(),
            "├── alpha 1.10.0".to_string(),
            "├── alpha 2.0.0".to_string(),
            "└── zeta 1.0.0".to_string(),
        ]
    );
}

#[test]
fn prerelease_ranks_below_release() {
    let mut pre = rel("p", 1, 0, 0);
    pre.version.pre = "beta.1".to_string();
    let releases = vec![rel("root", 1, 0, 0), rel("p", 1, 0, 0), pre];
    let g = DependencyGraph::new(releases, &vec![(1, 0), (2, 0)]).unwrap();
    assert_eq!(g.dependents[0], vec![2, 1]);
}

#[test]
fn prerelease_fields_compare_numerically() {
    let mut nine = rel("p", 1, 0, 0);
    nine.version.pre = "alpha.9".to_string();
    let mut ten = rel("p", 1, 0, 0);
    ten.version.pre = "alpha.10".to_string();
    let mut beta = rel("p", 1, 0, 0);
    beta.version.pre = "beta".to_string();
    let mut alpha = rel("p", 1, 0, 0);
    alpha.version.pre = "alpha".to_string();
    let releases = vec![rel("root", 1, 0, 0), beta, ten, nine, alpha];
    let edges = vec![(1, 0), (2, 0), (3, 0), (4, 0)];
    let g = DependencyGraph::new(releases, &edges).unwrap();
    assert_eq!(g.dependents[0], vec![4, 3, 2, 1]);
    assert_eq!(
        tree_lines(&g, 0),
        vec![
            "root 1.0.0".to_string(),
            "├── p 1.0.0-alpha".to_string(),
            "├── p 1.0.0-alpha.9".to_string(),
            "├── p 1.0.0-alpha.10".to_string(),
            "└── p 1.0.0-beta".to_string(),
        ]
    );
}

#[test]
fn build_metadata_breaks_ties() {
    let mut b2 = rel("b", 1, 0, 0);
    b2.version.build = "build.2".to_string();
    let mut b10 = rel("b", 1, 0, 0);
    b10.version.build = "build.10".to_string();
    let releases = vec![rel("root", 1, 0, 0), b10, b2];
    let g = DependencyGraph::new(releases, &vec![(1, 0), (2, 0)]).unwrap();
    assert_eq!(g.dependents[0], vec![2, 1]);
}

#[test]
fn repeated_edges_kept_once() {
    let releases = vec![rel("t", 1, 0, 0), rel("u", 1, 0, 0)];
    let g = DependencyGraph::new(releases, &vec![(1, 0), (1, 0)]).unwrap();
    assert_eq!(g.dependents[0], vec![1]);
    assert!(g.dependents[1].is_empty());
}

#[test]
fn edge_to_unknown_node_is_refused() {
    let releases = vec![rel("t", 1, 0, 0)];
    assert_eq!(DependencyGraph::new(releases, &vec![(0, 1)]).err(), Some(GraphError::UnknownNode));
}

#[test]
fn node_of_finds_release() {
    let g = diamond();
    assert_eq!(g.node_of(&rel("c", 0, 2, 0)), Some(1));
    assert_eq!(g.node_of(&rel("c", 0, 2, 1)), None);
}

#[test]
fn row_text_with_prerelease_and_build() {
    let mut r = rel("q", 0, 3, 12);
    r.version.pre = "rc.1".to_string();
    r.version.build = "abc".to_string();
    let g = DependencyGraph::new(vec![r], &vec![]).unwrap();
    assert_eq!(format_row(&g, &vec![true, false], 0), "│   └── q 0.3.12-rc.1+abc");
    assert_eq!(format_row(&g, &vec![false, true], 0), "    ├── q 0.3.12-rc.1+abc");
    assert_eq!(format_row(&g, &vec![], 0), "q 0.3.12-rc.1+abc");
}
