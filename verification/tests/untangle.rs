use inspect::types::{ChangeClassification, ChangeType, EntityReview, RiskLevel};
use inspect::union_find::UnionFind;
use inspect::untangle::{common_prefix, untangle};

fn make_review(id: &str, name: &str, file: &str) -> EntityReview {
    EntityReview {
        entity_id: id.into(),
        entity_name: name.into(),
        entity_type: "function".into(),
        file_path: file.into(),
        change_type: ChangeType::Modified,
        classification: ChangeClassification::Functional,
        risk_score: 500_000,
        risk_level: RiskLevel::Medium,
        blast_radius: 0,
        dependent_count: 0,
        dependency_count: 0,
        is_public_api: false,
        structural_change: Some(true),
        group_id: 0,
        start_line: 1,
        end_line: 10,
        before_content: None,
        after_content: None,
        dependent_names: vec![],
        dependency_names: vec![],
    }
}

fn edge(a: &str, b: &str) -> (String, String) {
    (a.to_string(), b.to_string())
}

#[test]
fn independent_entities_separate_groups() {
    let reviews = vec![make_review("a", "foo", "src/a.rs"), make_review("b", "bar", "src/b.rs")];
    let edges: Vec<(String, String)> = vec![];
    let groups = untangle(&reviews, &edges);
    assert_eq!(groups.len(), 2);
}

#[test]
fn connected_entities_one_group() {
    let reviews = vec![
        make_review("a", "foo", "src/a.rs"),
        make_review("b", "bar", "src/a.rs"),
        make_review("c", "baz", "src/a.rs"),
    ];
    let edges = vec![("a".to_string(), "b".to_string()), ("b".to_string(), "c".to_string())];
    let groups = untangle(&reviews, &edges);
    assert_eq!(groups.len(), 1);
    assert_eq!(groups[0].entity_ids.len(), 3);
}

#[test]
fn two_entities_of_one_file_with_an_edge_share_a_group_named_by_the_path() {
    let reviews = vec![make_review("A", "a", "src/lib/x.rs"), make_review("B", "b", "src/lib/x.rs")];
    let groups = untangle(&reviews, &[edge("A", "B")]);
    assert_eq!(groups.len(), 1);
    assert_eq!(groups[0].id, 0);
    assert_eq!(groups[0].entity_ids, vec!["A".to_string(), "B".to_string()]);
    assert_eq!(groups[0].label, "src/lib/");
}

#[test]
fn no_reviews_no_groups() {
    assert!(untangle(&[], &[edge("a", "b")]).is_empty());
}

#[test]
fn groups_by_falling_size_then_by_first_member() {
    let reviews = vec![
        make_review("a", "na", "x/a.rs"),
        make_review("b", "nb", "x/b.rs"),
        make_review("c", "nc", "y/c.rs"),
        make_review("d", "nd", "x/d.rs"),
        make_review("e", "ne", "y/e.rs"),
        make_review("f", "nf", "z/f.rs"),
    ];
    // {a}, {b, d, f}, {c, e}
    let edges = vec![edge("f", "b"), edge("e", "c"), edge("d", "f"), edge("b", "d")];
    let groups = untangle(&reviews, &edges);
    assert_eq!(groups.len(), 3);
    let ids: Vec<Vec<String>> = groups.iter().map(|g| g.entity_ids.clone()).collect();
    assert_eq!(
        ids,
        vec![
            vec!["b".to_string(), "d".to_string(), "f".to_string()],
            vec!["c".to_string(), "e".to_string()],
            vec!["a".to_string()],
        ]
    );
    let numbers: Vec<usize> = groups.iter().map(|g| g.id).collect();
    assert_eq!(numbers, vec![0, 1, 2]);
    let labels: Vec<&str> = groups.iter().map(|g| g.label.as_str()).collect();
    assert_eq!(labels, vec!["3 entities", "y/", "na"]);
}

#[test]
fn groups_of_one_size_keep_the_order_of_their_first_reviews() {
    let reviews = vec![
        make_review("a", "na", "a.rs"),
        make_review("b", "nb", "b.rs"),
        make_review("c", "nc", "c.rs"),
        make_review("d", "nd", "d.rs"),
    ];
    let groups = untangle(&reviews, &[edge("d", "b"), edge("c", "a")]);
    let ids: Vec<Vec<String>> = groups.iter().map(|g| g.entity_ids.clone()).collect();
    assert_eq!(
        ids,
        vec![vec!["a".to_string(), "c".to_string()], vec!["b".to_string(), "d".to_string()]]
    );
}

#[test]
fn every_review_is_in_exactly_one_group() {
    let names = ["a", "b", "c", "d", "e", "f", "g", "h"];
    let reviews: Vec<EntityReview> =
        names.iter().map(|n| make_review(n, n, &format!("src/{}.rs", n))).collect();
    let edges = vec![
        edge("a", "b"),
        edge("b", "a"),
        edge("c", "c"),
        edge("d", "e"),
        edge("e", "f"),
        edge("f", "d"),
        edge("g", "unknown"),
        edge("unknown", "h"),
        edge("a", "b"),
    ];
    let groups = untangle(&reviews, &edges);
    let mut seen: Vec<String> = Vec::new();
    for g in &groups {
        assert!(!g.entity_ids.is_empty());
        for id in &g.entity_ids {
            assert!(!seen.contains(id));
            assert!(names.contains(&id.as_str()));
            seen.push(id.clone());
        }
    }
    assert_eq!(seen.len(), names.len());
    let sizes: Vec<usize> = groups.iter().map(|g| g.entity_ids.len()).collect();
    assert_eq!(sizes, vec![3, 2, 1, 1, 1]);
}

#[test]
fn an_edge_with_an_unknown_end_links_nothing() {
    let reviews = vec![make_review("a", "na", "a.rs"), make_review("b", "nb", "b.rs")];
    let groups = untangle(&reviews, &[edge("a", "x"), edge("x", "b")]);
    assert_eq!(groups.len(), 2);
    assert_eq!(groups[0].label, "na");
    assert_eq!(groups[1].label, "nb");
}

#[test]
fn an_id_stands_for_the_last_review_that_carries_it() {
    let reviews = vec![
        make_review("a", "first", "a.rs"),
        make_review("b", "nb", "b.rs"),
        make_review("a", "second", "c.rs"),
    ];
    let groups = untangle(&reviews, &[edge("a", "b")]);
    assert_eq!(groups.len(), 2);
    assert_eq!(groups[0].entity_ids, vec!["b".to_string(), "a".to_string()]);
    assert_eq!(groups[1].entity_ids, vec!["a".to_string()]);
    assert_eq!(groups[1].label, "first");
}

#[test]
fn labels_by_shared_path_prefix() {
    assert_eq!(common_prefix(&[]), "");
    assert_eq!(common_prefix(&["src/a.rs"]), "src/");
    assert_eq!(common_prefix(&["a.rs"]), "a.rs");
    assert_eq!(common_prefix(&["src/a.rs", "src/b.rs"]), "src/");
    assert_eq!(common_prefix(&["src/x/a.rs", "src/x/ab.rs", "src/xy/a.rs"]), "src/");
    assert_eq!(common_prefix(&["main.rs", "main.py"]), "main.");
    assert_eq!(common_prefix(&["a.rs", "b.rs"]), "");
    assert_eq!(common_prefix(&["/a", "/b"]), "/");
    assert_eq!(common_prefix(&["src/a", "src/a/b"]), "src/");
    assert_eq!(common_prefix(&["src/a/", "src/a/b"]), "src/a/");
    assert_eq!(common_prefix(&["", "src/a"]), "");
    assert_eq!(common_prefix(&["\u{e9}/a", "\u{e9}/b", "\u{e9}/c"]), "\u{e9}/");
    assert_eq!(common_prefix(&["\u{e9}", "\u{e8}"]), "");
}

#[test]
fn ten_and_more_entities_are_counted_in_decimal() {
    let reviews: Vec<EntityReview> =
        (0..12).map(|i| make_review(&format!("e{}", i), "n", &format!("{}.rs", i))).collect();
    let edges: Vec<(String, String)> =
        (1..12).map(|i| edge(&format!("e{}", i - 1), &format!("e{}", i))).collect();
    let groups = untangle(&reviews, &edges);
    assert_eq!(groups.len(), 1);
    assert_eq!(groups[0].label, "12 entities");
}

#[test]
fn union_find_joins_sets() {
    let mut uf = UnionFind::new(6);
    for i in 0..6 {
        assert_eq!(uf.find(i), i);
    }
    uf.union(0, 1);
    uf.union(2, 3);
    assert_eq!(uf.find(0), uf.find(1));
    assert_eq!(uf.find(2), uf.find(3));
    assert_ne!(uf.find(0), uf.find(2));
    uf.union(1, 3);
    let root = uf.find(0);
    for i in 0..4 {
        assert_eq!(uf.find(i), root);
    }
    assert_ne!(uf.find(4), root);
    assert_ne!(uf.find(5), root);
    assert_ne!(uf.find(4), uf.find(5));
    uf.union(4, 4);
    assert_eq!(uf.find(4), 4);
    uf.union(0, 2);
    assert_eq!(uf.find(3), root);
}

#[test]
fn union_find_on_a_long_chain() {
    let n = 2000;
    let mut uf = UnionFind::new(n);
    for i in 1..n {
        uf.union(i, i - 1);
    }
    let root = uf.find(0);
    for i in 0..n {
        assert_eq!(uf.find(i), root);
    }
}
