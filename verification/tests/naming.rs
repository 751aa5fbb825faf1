use file_bundler::naming::name_for;
use file_bundler::naming::split_segments;
use file_bundler::naming::starts_at_root;
use file_bundler::naming::to_forward_slashes;
use file_bundler::naming::RootKind;

#[test]
fn directory_name_leads_the_entry_name() {
    let name = name_for(
        "/home/user/data",
        RootKind::Directory,
        "/home/user/data/img/1.png",
    );
    assert_eq!(name, Some("data/img/1.png".to_string()));
}

#[test]
fn single_file_is_stored_under_its_base_name() {
    let name = name_for(
        "/home/user/notes/a.txt",
        RootKind::SingleFile,
        "/home/user/notes/a.txt",
    );
    assert_eq!(name, Some("a.txt".to_string()));
    assert_eq!(
        name_for("a.txt", RootKind::SingleFile, "a.txt"),
        Some("a.txt".to_string())
    );
}

#[test]
fn relative_directory_keeps_its_own_name() {
    assert_eq!(
        name_for("project", RootKind::Directory, "project/src/main.ext"),
        Some("project/src/main.ext".to_string())
    );
    assert_eq!(
        name_for("project", RootKind::Directory, "project/README"),
        Some("project/README".to_string())
    );
}

#[test]
fn filesystem_root_has_no_parent() {
    assert_eq!(
        name_for("/", RootKind::Directory, "/etc/passwd"),
        Some("etc/passwd".to_string())
    );
    assert_eq!(name_for("/", RootKind::SingleFile, "/"), None);
    assert_eq!(name_for("", RootKind::SingleFile, ""), None);
}

#[test]
fn empty_segments_are_dropped() {
    assert_eq!(
        name_for("/srv//data/", RootKind::Directory, "/srv/data//a//b.bin"),
        Some("data/a/b.bin".to_string())
    );
    assert_eq!(
        name_for("/srv/data/", RootKind::SingleFile, "/srv/data/"),
        Some("data".to_string())
    );
}

#[test]
fn path_outside_the_root_keeps_all_its_segments() {
    assert_eq!(
        name_for("/a/b", RootKind::Directory, "/x/y/z"),
        Some("x/y/z".to_string())
    );
    assert_eq!(
        name_for("/a/b", RootKind::Directory, "a/b/c"),
        Some("a/b/c".to_string())
    );
    assert_eq!(name_for("/a/b", RootKind::Directory, "/a"), None);
}

#[test]
fn naming_twice_gives_the_same_name() {
    let first = name_for("/top/dir", RootKind::Directory, "/top/dir/sub/file");
    let second = name_for("/top/dir", RootKind::Directory, "/top/dir/sub/file");
    assert_eq!(first, second);
    assert_eq!(first, Some("dir/sub/file".to_string()));
}

#[test]
fn distinct_files_get_distinct_names() {
    let root = "/top/dir";
    let files = [
        "/top/dir/a",
        "/top/dir/b",
        "/top/dir/a/b",
        "/top/dir/ab",
        "/top/dir/sub/a",
        "/top/dir/sub/sub/a",
    ];
    let mut names: Vec<String> = Vec::new();
    for file in files.iter() {
        let name = name_for(root, RootKind::Directory, file).unwrap();
        assert!(!names.contains(&name));
        names.push(name);
    }
    assert_eq!(names.len(), 6);
    assert_eq!(names[2], "dir/a/b");
}

#[test]
fn names_keep_characters_beyond_ascii() {
    assert_eq!(
        name_for("/données/été", RootKind::Directory, "/données/été/naïve.txt"),
        Some("été/naïve.txt".to_string())
    );
}

#[test]
fn segments_are_the_runs_between_separators() {
    assert_eq!(
        split_segments("/home//user/data/"),
        vec!["home".to_string(), "user".to_string(), "data".to_string()]
    );
    assert_eq!(split_segments("a"), vec!["a".to_string()]);
    assert!(split_segments("").is_empty());
    assert!(split_segments("///").is_empty());
    assert_eq!(
        split_segments("a\\b/c"),
        vec!["a\\b".to_string(), "c".to_string()]
    );
}

#[test]
fn rooted_paths_start_with_a_separator() {
    assert!(starts_at_root("/"));
    assert!(starts_at_root("/a"));
    assert!(!starts_at_root(""));
    assert!(!starts_at_root("a/"));
}

#[test]
fn host_separators_become_forward_slashes() {
    assert_eq!(
        to_forward_slashes("C:\\Users\\me\\data", '\\'),
        "C:/Users/me/data"
    );
    assert_eq!(to_forward_slashes("\\\\", '\\'), "//");
    assert_eq!(to_forward_slashes("a/b\\c", '\\'), "a/b/c");
    assert_eq!(to_forward_slashes("/home/me/a\\b", '/'), "/home/me/a\\b");
    assert_eq!(to_forward_slashes("", '\\'), "");
    assert_eq!(to_forward_slashes("été:naïve", ':'), "été/naïve");
}
