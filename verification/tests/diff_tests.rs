use dir_diff::{
    content_status, count_dir_diff, diff_summary, get_dir_diff, needs_content, paths_to_probe,
    same_content, ContentStatus, DiffCounts, DirDiff, DirListing, PathProbe,
};

fn listing(paths: &[&str]) -> DirListing {
    DirListing::from_paths(paths.iter().map(|p| p.to_string()).collect())
}

fn removed(path: &str) -> DirDiff {
    DirDiff::Removed(path.to_string())
}

fn added(path: &str) -> DirDiff {
    DirDiff::Added(path.to_string())
}

fn common(path: &str, status: ContentStatus) -> DirDiff {
    DirDiff::Common(path.to_string(), status)
}

fn same_files() -> PathProbe {
    PathProbe { source_is_file: true, target_is_file: true, same_content: true }
}

fn paths_of(diff: &[DirDiff]) -> Vec<String> {
    diff.iter()
        .map(|entry| match entry {
            DirDiff::Removed(p) | DirDiff::Added(p) | DirDiff::Common(p, _) => p.clone(),
        })
        .collect()
}

#[test]
fn shared_file_between_removed_and_added() {
    let source = listing(&["a.txt", "b.txt"]);
    let target = listing(&["b.txt", "c.txt"]);
    assert_eq!(paths_to_probe(&source, &target), vec!["b.txt".to_string()]);
    let probes = vec![same_files()];
    let diff = get_dir_diff(&source, &target, &probes, true);
    assert_eq!(
        diff,
        vec![removed("a.txt"), common("b.txt", ContentStatus::Unchanged), added("c.txt")]
    );
    assert_eq!(
        count_dir_diff(&diff),
        DiffCounts { removed: 1, added: 1, common: 1, unchanged: 1, changed: 0 }
    );
    assert_eq!(
        diff_summary(&diff, false, true),
        "1 removed, 1 added, 1 similar, 1 files unchanged, 0 files changed"
    );
}

#[test]
fn directory_that_became_a_file_is_changed() {
    let source = listing(&["config"]);
    let target = listing(&["config"]);
    let probes = vec![PathProbe { source_is_file: false, target_is_file: true, same_content: false }];
    let diff = get_dir_diff(&source, &target, &probes, true);
    assert_eq!(diff, vec![common("config", ContentStatus::Changed)]);
    assert_eq!(
        content_status(PathProbe { source_is_file: true, target_is_file: false, same_content: true }),
        ContentStatus::Changed
    );
}

#[test]
fn type_change_is_not_compared_only_when_comparison_is_off() {
    let source = listing(&["config"]);
    let probes = vec![PathProbe { source_is_file: false, target_is_file: true, same_content: false }];
    let diff = get_dir_diff(&source, &source, &probes, false);
    assert_eq!(diff, vec![common("config", ContentStatus::NotCompared)]);
}

#[test]
fn content_status_of_every_probe() {
    for source_is_file in [false, true] {
        for target_is_file in [false, true] {
            for same in [false, true] {
                let probe = PathProbe { source_is_file, target_is_file, same_content: same };
                let expected = match (source_is_file, target_is_file) {
                    (true, true) => {
                        if same {
                            ContentStatus::Unchanged
                        } else {
                            ContentStatus::Changed
                        }
                    }
                    (false, false) => ContentStatus::NotCompared,
                    _ => ContentStatus::Changed,
                };
                assert_eq!(content_status(probe), expected);
            }
        }
    }
}

#[test]
fn content_is_read_only_for_two_files() {
    assert!(needs_content(true, true));
    assert!(!needs_content(true, false));
    assert!(!needs_content(false, true));
    assert!(!needs_content(false, false));
}

#[test]
fn same_content_is_exact() {
    assert!(same_content(b"", b""));
    assert!(same_content(b"line\n", b"line\n"));
    assert!(!same_content(b"line\n", b"line\r\n"));
    assert!(!same_content(b"line", b"line "));
    assert!(!same_content(b"abc", b"abd"));
    assert!(!same_content(b"abc", b"ab"));
    assert!(!same_content(b"", b"x"));
}

#[test]
fn removed_added_and_common_are_the_set_differences_and_the_intersection() {
    let source = listing(&["a", "b", "d", "f/g", "z"]);
    let target = listing(&["b", "c", "f/g", "h", "i", "z"]);
    let diff = get_dir_diff(&source, &target, &Vec::new(), false);
    let mut removed_paths = Vec::new();
    let mut added_paths = Vec::new();
    let mut common_paths = Vec::new();
    for entry in &diff {
        match entry {
            DirDiff::Removed(p) => removed_paths.push(p.as_str()),
            DirDiff::Added(p) => added_paths.push(p.as_str()),
            DirDiff::Common(p, status) => {
                assert_eq!(*status, ContentStatus::NotCompared);
                common_paths.push(p.as_str());
            }
        }
    }
    assert_eq!(removed_paths, vec!["a", "d"]);
    assert_eq!(added_paths, vec!["c", "h", "i"]);
    assert_eq!(common_paths, vec!["b", "f/g", "z"]);
    assert_eq!(
        diff,
        vec![
            removed("a"),
            common("b", ContentStatus::NotCompared),
            added("c"),
            removed("d"),
            common("f/g", ContentStatus::NotCompared),
            added("h"),
            added("i"),
            common("z", ContentStatus::NotCompared),
        ]
    );
}

#[test]
fn output_is_in_ascending_order_without_repetition() {
    let source = listing(&["m", "a/b", "a.txt", "Z", "a", "é", "a/b/c"]);
    let target = listing(&["a", "b", "a/c", "z", "Z", "0"]);
    let diff = get_dir_diff(&source, &target, &Vec::new(), false);
    let paths = paths_of(&diff);
    for pair in paths.windows(2) {
        assert!(pair[0] < pair[1], "{:?} before {:?}", pair[0], pair[1]);
    }
    assert_eq!(paths, vec!["0", "Z", "a", "a.txt", "a/b", "a/b/c", "a/c", "b", "m", "z", "é"]);
}

#[test]
fn diff_against_itself_is_all_common_and_not_compared() {
    let source = listing(&["a", "b/c", "d"]);
    let again = listing(&["a", "b/c", "d"]);
    let diff = get_dir_diff(&source, &again, &vec![same_files(); 3], false);
    assert_eq!(
        diff,
        vec![
            common("a", ContentStatus::NotCompared),
            common("b/c", ContentStatus::NotCompared),
            common("d", ContentStatus::NotCompared),
        ]
    );
    assert_eq!(
        count_dir_diff(&diff),
        DiffCounts { removed: 0, added: 0, common: 3, unchanged: 0, changed: 0 }
    );
}

#[test]
fn diff_against_itself_with_identical_files_is_all_unchanged() {
    let source = listing(&["a", "b/c", "d"]);
    let diff = get_dir_diff(&source, &source, &vec![same_files(); 3], true);
    assert_eq!(
        diff,
        vec![
            common("a", ContentStatus::Unchanged),
            common("b/c", ContentStatus::Unchanged),
            common("d", ContentStatus::Unchanged),
        ]
    );
    assert_eq!(
        count_dir_diff(&diff),
        DiffCounts { removed: 0, added: 0, common: 3, unchanged: 3, changed: 0 }
    );
}

#[test]
fn a_directory_in_both_trees_is_not_compared() {
    let source = listing(&["dir", "dir/file"]);
    let probes = vec![
        PathProbe { source_is_file: false, target_is_file: false, same_content: false },
        same_files(),
    ];
    let diff = get_dir_diff(&source, &source, &probes, true);
    assert_eq!(
        diff,
        vec![common("dir", ContentStatus::NotCompared), common("dir/file", ContentStatus::Unchanged)]
    );
}

#[test]
fn empty_source_gives_only_added() {
    let source = DirListing::new();
    let target = listing(&["x", "y", "z"]);
    let diff = get_dir_diff(&source, &target, &Vec::new(), true);
    assert_eq!(diff, vec![added("x"), added("y"), added("z")]);
    assert_eq!(
        count_dir_diff(&diff),
        DiffCounts { removed: 0, added: 3, common: 0, unchanged: 0, changed: 0 }
    );
}

#[test]
fn empty_target_gives_only_removed() {
    let source = listing(&["x", "y"]);
    let target = DirListing::new();
    let diff = get_dir_diff(&source, &target, &Vec::new(), false);
    assert_eq!(diff, vec![removed("x"), removed("y")]);
}

#[test]
fn two_empty_listings_give_an_empty_diff() {
    let diff = get_dir_diff(&DirListing::new(), &DirListing::new(), &Vec::new(), true);
    assert!(diff.is_empty());
    assert_eq!(diff_summary(&diff, false, true), "0 removed, 0 added, 0 similar, 0 files unchanged, 0 files changed");
}

#[test]
fn disjoint_listings_interleave() {
    let source = listing(&["a", "c", "e"]);
    let target = listing(&["b", "d", "f", "g"]);
    let diff = get_dir_diff(&source, &target, &Vec::new(), false);
    assert_eq!(
        diff,
        vec![removed("a"), added("b"), removed("c"), added("d"), removed("e"), added("f"), added("g")]
    );
}

#[test]
fn listings_of_unequal_length_drain_the_longer() {
    let source = listing(&["a", "b", "c", "d", "e"]);
    let target = listing(&["b"]);
    let diff = get_dir_diff(&source, &target, &Vec::new(), false);
    assert_eq!(
        diff,
        vec![
            removed("a"),
            common("b", ContentStatus::NotCompared),
            removed("c"),
            removed("d"),
            removed("e"),
        ]
    );
}

#[test]
fn probes_go_to_the_common_paths_by_rank() {
    let source = listing(&["a", "b", "c", "d"]);
    let target = listing(&["b", "c", "d", "e"]);
    assert_eq!(paths_to_probe(&source, &target), vec!["b", "c", "d"]);
    let probes = vec![
        PathProbe { source_is_file: true, target_is_file: true, same_content: false },
        PathProbe { source_is_file: false, target_is_file: false, same_content: false },
        same_files(),
    ];
    let diff = get_dir_diff(&source, &target, &probes, true);
    assert_eq!(
        diff,
        vec![
            removed("a"),
            common("b", ContentStatus::Changed),
            common("c", ContentStatus::NotCompared),
            common("d", ContentStatus::Unchanged),
            added("e"),
        ]
    );
    assert_eq!(
        count_dir_diff(&diff),
        DiffCounts { removed: 1, added: 1, common: 3, unchanged: 1, changed: 1 }
    );
}

#[test]
fn a_common_path_without_a_probe_is_not_compared() {
    let source = listing(&["a", "b"]);
    let diff = get_dir_diff(&source, &source, &vec![same_files()], true);
    assert_eq!(
        diff,
        vec![common("a", ContentStatus::Unchanged), common("b", ContentStatus::NotCompared)]
    );
}

#[test]
fn same_trees_give_the_same_diff_twice() {
    let first_source = listing(&["b", "a", "c"]);
    let first_target = listing(&["c", "d"]);
    let second_source = listing(&["c", "b", "a", "b"]);
    let second_target = listing(&["d", "c"]);
    let probes = vec![same_files()];
    let first = get_dir_diff(&first_source, &first_target, &probes, true);
    let second = get_dir_diff(&second_source, &second_target, &probes, true);
    assert_eq!(first, second);
    assert_eq!(first, get_dir_diff(&first_source, &first_target, &probes, true));
}
