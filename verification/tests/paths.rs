use autolink::paths::{chars_of, file_name_of, find_last_separator, join, parent_of, starts_at_root};

fn text(s: &str) -> Option<String> {
    Some(s.to_string())
}

#[test]
fn chars_come_in_order() {
    assert_eq!(chars_of("a/é~"), vec!['a', '/', 'é', '~']);
    assert_eq!(chars_of(""), Vec::<char>::new());
}

#[test]
fn absolute_paths_start_with_a_slash() {
    assert!(starts_at_root("/"));
    assert!(starts_at_root("/home/u"));
    assert!(!starts_at_root(""));
    assert!(!starts_at_root("home/u"));
    assert!(!starts_at_root("~/x"));
    assert!(!starts_at_root("./x"));
}

#[test]
fn last_separator_is_found_from_the_right() {
    assert_eq!(find_last_separator(&chars_of("a/b/c")), Some(3));
    assert_eq!(find_last_separator(&chars_of("/")), Some(0));
    assert_eq!(find_last_separator(&chars_of("abc")), None);
    assert_eq!(find_last_separator(&chars_of("")), None);
    assert_eq!(find_last_separator(&chars_of("é/é")), Some(1));
}

#[test]
fn file_name_is_the_last_component() {
    assert_eq!(file_name_of("proj/notes.txt"), text("notes.txt"));
    assert_eq!(file_name_of("notes.txt"), text("notes.txt"));
    assert_eq!(file_name_of("/notes.txt"), text("notes.txt"));
    assert_eq!(file_name_of("/a/b/.bashrc"), text(".bashrc"));
    assert_eq!(file_name_of("a/..b"), text("..b"));
    assert_eq!(file_name_of("a/..."), text("..."));
}

#[test]
fn file_name_is_missing_where_nothing_names_a_file() {
    assert_eq!(file_name_of(""), None);
    assert_eq!(file_name_of("/"), None);
    assert_eq!(file_name_of("a/"), None);
    assert_eq!(file_name_of("."), None);
    assert_eq!(file_name_of(".."), None);
    assert_eq!(file_name_of("a/."), None);
    assert_eq!(file_name_of("a/.."), None);
}

#[test]
fn parent_is_the_text_before_the_last_slash() {
    assert_eq!(parent_of("proj/notes.txt"), text("proj"));
    assert_eq!(parent_of("/home/u/out1/notes.txt"), text("/home/u/out1"));
    assert_eq!(parent_of("examples/nested-dir/file1.example"), text("examples/nested-dir"));
    assert_eq!(parent_of("a/b/"), text("a/b"));
}

#[test]
fn parent_of_a_bare_name_is_the_empty_directory() {
    assert_eq!(parent_of("notes.txt"), text(""));
}

#[test]
fn parent_of_an_entry_of_the_root_is_the_root() {
    assert_eq!(parent_of("/notes.txt"), text("/"));
}

#[test]
fn the_root_and_the_empty_path_have_no_parent() {
    assert_eq!(parent_of("/"), None);
    assert_eq!(parent_of(""), None);
}

#[test]
fn join_puts_one_separator_between() {
    assert_eq!(join("a", "b"), "a/b");
    assert_eq!(join("a/", "b"), "a/b");
    assert_eq!(join("/", "b"), "/b");
    assert_eq!(join("proj", "../sibling/out2"), "proj/../sibling/out2");
    assert_eq!(join("/home/u/out1", "notes.txt"), "/home/u/out1/notes.txt");
}

#[test]
fn join_lets_an_absolute_tail_stand_alone() {
    assert_eq!(join("a", "/b"), "/b");
    assert_eq!(join("/x/y", "/home/u/out1"), "/home/u/out1");
}

#[test]
fn join_lets_the_tail_stand_alone_under_the_empty_directory() {
    assert_eq!(join("", "b"), "b");
    assert_eq!(join("", "./b"), "./b");
    assert_eq!(join("", ""), "");
}

#[test]
fn join_with_an_empty_tail_ends_in_a_separator() {
    assert_eq!(join("a", ""), "a/");
}
