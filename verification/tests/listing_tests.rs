use dir_diff::{
    compare_paths, contains_separator, count_separators, get_dir_listing, is_within_depth,
    relative_path, DirListing, PathOrder,
};

fn strings(paths: &[&str]) -> Vec<String> {
    paths.iter().map(|p| p.to_string()).collect()
}

#[test]
fn compare_paths_goes_by_the_first_difference() {
    assert_eq!(compare_paths("a", "b"), PathOrder::Before);
    assert_eq!(compare_paths("b", "a"), PathOrder::After);
    assert_eq!(compare_paths("abc", "abd"), PathOrder::Before);
    assert_eq!(compare_paths("abd", "abc"), PathOrder::After);
    assert_eq!(compare_paths("same/path", "same/path"), PathOrder::Same);
    assert_eq!(compare_paths("", ""), PathOrder::Same);
}

#[test]
fn compare_paths_puts_a_prefix_first() {
    assert_eq!(compare_paths("", "a"), PathOrder::Before);
    assert_eq!(compare_paths("a", ""), PathOrder::After);
    assert_eq!(compare_paths("dir", "dir/file"), PathOrder::Before);
    assert_eq!(compare_paths("dir/file", "dir"), PathOrder::After);
}

#[test]
fn compare_paths_goes_by_code_points() {
    assert_eq!(compare_paths("Z", "a"), PathOrder::Before);
    assert_eq!(compare_paths("a.txt", "a/b"), PathOrder::Before);
    assert_eq!(compare_paths("z", "é"), PathOrder::Before);
    assert_eq!(compare_paths("é", "日"), PathOrder::Before);
    assert_eq!(compare_paths("\u{ffff}", "\u{10000}"), PathOrder::Before);
    assert_eq!(compare_paths("日本", "日"), PathOrder::After);
}

#[test]
fn compare_paths_agrees_with_the_order_of_strings() {
    let samples = ["", "a", "A", "a/b", "a.b", "ab", "b", "é", "e\u{301}", "日本語", "~", "-", "+"];
    for x in samples {
        for y in samples {
            let expected = if x < y {
                PathOrder::Before
            } else if x == y {
                PathOrder::Same
            } else {
                PathOrder::After
            };
            assert_eq!(compare_paths(x, y), expected, "{:?} and {:?}", x, y);
        }
    }
}

#[test]
fn from_paths_sorts_and_keeps_each_path_once() {
    let listing = DirListing::from_paths(strings(&["m", "b", "a/z", "b", "a", "m", "a.txt", "b"]));
    assert_eq!(listing.paths(), &strings(&["a", "a.txt", "a/z", "b", "m"]));
    assert_eq!(listing.len(), 5);
}

#[test]
fn from_paths_of_nothing_is_empty() {
    let listing = DirListing::from_paths(Vec::new());
    assert_eq!(listing.len(), 0);
    assert!(listing.paths().is_empty());
    assert_eq!(DirListing::new().len(), 0);
}

#[test]
fn from_paths_of_one_path() {
    let listing = DirListing::from_paths(strings(&["only"]));
    assert_eq!(listing.paths(), &strings(&["only"]));
}

#[test]
fn from_paths_sorts_many_paths() {
    let mut paths = Vec::new();
    let mut n: u32 = 7;
    for _ in 0..500 {
        n = n.wrapping_mul(1103515245).wrapping_add(12345);
        paths.push(format!("dir{}/file{}", n % 13, n % 101));
    }
    let listing = DirListing::from_paths(paths.clone());
    paths.sort();
    paths.dedup();
    assert_eq!(listing.paths(), &paths);
}

#[test]
fn relative_path_strips_the_root() {
    assert_eq!(relative_path("/tmp/root", "/tmp/root/a.txt"), Some("a.txt".to_string()));
    assert_eq!(relative_path("/tmp/root", "/tmp/root/dir/b.txt"), Some("dir/b.txt".to_string()));
    assert_eq!(relative_path("/tmp/root/", "/tmp/root/a.txt"), Some("a.txt".to_string()));
    assert_eq!(relative_path("/", "/bin"), Some("bin".to_string()));
    assert_eq!(relative_path("/tmp/röt", "/tmp/röt/日本"), Some("日本".to_string()));
}

#[test]
fn relative_path_keeps_a_bare_name() {
    assert_eq!(relative_path("/tmp/root", "name"), Some("name".to_string()));
}

#[test]
fn relative_path_refuses_what_is_not_under_the_root() {
    assert_eq!(relative_path("/tmp/root", "/tmp/root"), None);
    assert_eq!(relative_path("/tmp/root", "/tmp/root/"), None);
    assert_eq!(relative_path("/tmp/root", "/tmp/rootless/a"), None);
    assert_eq!(relative_path("/tmp/root", "/tmp/other/a"), None);
    assert_eq!(relative_path("/tmp/root", "/tmp"), None);
    assert_eq!(relative_path("/tmp/root", ""), None);
    assert_eq!(relative_path("/tmp/root", "/"), None);
}

#[test]
fn separators_are_counted() {
    assert_eq!(count_separators(""), 0);
    assert_eq!(count_separators("a"), 0);
    assert_eq!(count_separators("a/b"), 1);
    assert_eq!(count_separators("a/b/c/d"), 3);
    assert_eq!(count_separators("//"), 2);
    assert!(!contains_separator("name"));
    assert!(!contains_separator(""));
    assert!(contains_separator("a/b"));
    assert!(contains_separator("/"));
}

#[test]
fn depth_counts_levels_below_the_root() {
    assert!(is_within_depth("a", None));
    assert!(is_within_depth("a/b/c/d/e", None));
    assert!(is_within_depth("a", Some(1)));
    assert!(!is_within_depth("a/b", Some(1)));
    assert!(is_within_depth("a/b", Some(2)));
    assert!(!is_within_depth("a/b/c", Some(2)));
    assert!(is_within_depth("a/b/c", Some(255)));
    assert!(!is_within_depth("a", Some(0)));
}

#[test]
fn listing_is_relative_and_sorted() {
    let entries = strings(&[
        "/r/src/main.rs",
        "/r/Cargo.toml",
        "/r/src",
        "/r/README.md",
        "/r/src/lib/mod.rs",
        "/r/src/lib",
    ]);
    let listing = get_dir_listing("/r", None, &entries);
    assert_eq!(
        listing.paths(),
        &strings(&["Cargo.toml", "README.md", "src", "src/lib", "src/lib/mod.rs", "src/main.rs"])
    );
}

#[test]
fn listing_of_an_empty_directory_is_empty() {
    let listing = get_dir_listing("/r", None, &Vec::new());
    assert_eq!(listing.len(), 0);
}

#[test]
fn listing_keeps_an_entry_once() {
    let entries = strings(&["/r/a", "/r/b", "/r/a"]);
    let listing = get_dir_listing("/r", Some(1), &entries);
    assert_eq!(listing.paths(), &strings(&["a", "b"]));
}

#[test]
fn listing_with_depth_keeps_the_levels_within_it() {
    let entries = strings(&["/r/a", "/r/a/b", "/r/a/b/c", "/r/d", "/r/d/e/f/g"]);
    assert_eq!(get_dir_listing("/r", Some(1), &entries).paths(), &strings(&["a", "d"]));
    assert_eq!(get_dir_listing("/r", Some(2), &entries).paths(), &strings(&["a", "a/b", "d"]));
    assert_eq!(
        get_dir_listing("/r", Some(3), &entries).paths(),
        &strings(&["a", "a/b", "a/b/c", "d"])
    );
    assert_eq!(get_dir_listing("/r", None, &entries).len(), 5);
}

#[test]
fn listing_with_depth_zero_is_empty() {
    let entries = strings(&["/r/a", "/r/a/b", "/r"]);
    assert_eq!(get_dir_listing("/r", Some(0), &entries).len(), 0);
}

#[test]
fn listing_leaves_out_what_is_not_under_the_root() {
    let entries = strings(&["/r/a", "/elsewhere/b", "/r", "/rr/c"]);
    assert_eq!(get_dir_listing("/r", None, &entries).paths(), &strings(&["a"]));
}

#[test]
fn listing_does_not_depend_on_the_order_of_enumeration() {
    let forward = strings(&["/r/a", "/r/b", "/r/c/d"]);
    let backward = strings(&["/r/c/d", "/r/b", "/r/a", "/r/b"]);
    assert_eq!(
        get_dir_listing("/r", None, &forward).paths(),
        get_dir_listing("/r", None, &backward).paths()
    );
}
