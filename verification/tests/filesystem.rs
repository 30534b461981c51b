use agent::util::filesystem::{diff_paths, Filesystem};

#[test]
fn filesystem_test_relative_path() {
    let rel = Filesystem::relative("/home/user", "/home/user/docs/file.txt");
    assert_eq!(rel, "docs/file.txt");
}

#[test]
fn diff_paths_climbs_out_of_the_base() {
    assert_eq!(diff_paths("/a/b/c", "/a/x/y"), Ok("../../b/c".to_string()));
    assert_eq!(diff_paths("/a", "/a/b"), Ok("..".to_string()));
}

#[test]
fn diff_paths_of_equal_paths_is_a_dot() {
    assert_eq!(diff_paths("/a/b", "/a/b"), Ok(".".to_string()));
    assert_eq!(diff_paths("", ""), Ok(".".to_string()));
}

#[test]
fn diff_paths_to_an_absolute_target_from_a_relative_base_is_the_target() {
    assert_eq!(diff_paths("/a/b", "c"), Ok("/a/b".to_string()));
}

#[test]
fn contains_compares_texts_without_canonical_forms() {
    assert!(Filesystem::contains("/home/user", "/home/user/docs", None));
    assert!(!Filesystem::contains("/home/user/docs", "/home/user", None));
    assert!(Filesystem::contains("/home/us", "/home/user", None));
}

#[test]
fn contains_compares_components_of_canonical_forms() {
    assert!(Filesystem::contains("a", "b", Some(("/home/user", "/home/user/docs"))));
    assert!(!Filesystem::contains("a", "b", Some(("/home/us", "/home/user"))));
}

#[test]
fn overlaps_holds_for_nested_paths_in_either_order() {
    assert!(Filesystem::overlaps("/home/user", "/home/user/docs", None));
    assert!(Filesystem::overlaps("/home/user/docs", "/home/user", None));
    assert!(!Filesystem::overlaps("/home/user", "/var/log", None));
}

#[test]
fn find_up_names_the_target_in_every_directory_above() {
    let found = Filesystem::find_up("target.txt", "/a/b/c", None);
    assert_eq!(
        found,
        vec!["/a/b/c/target.txt", "/a/b/target.txt", "/a/target.txt", "/target.txt"]
    );
}

#[test]
fn find_up_stops_at_the_given_directory() {
    let found = Filesystem::find_up("t", "/a/b/c", Some("/a/b"));
    assert_eq!(found, vec!["/a/b/c/t", "/a/b/t"]);
    let found = Filesystem::find_up("t", "/a/b/c", Some("/a/b/c/"));
    assert_eq!(found, vec!["/a/b/c/t"]);
}
