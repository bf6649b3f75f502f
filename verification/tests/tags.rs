use autolink::notice::Notice;
use autolink::tags::{
    collect_tags, contains_char, contains_marker, groups_in, normalize, resolve,
    tags_in, those_present, TAG_PATTERN, UNANCHORED,
};

fn chars(s: &str) -> Vec<char> {
    s.chars().collect()
}

fn texts(items: &[&str]) -> Vec<String> {
    items.iter().map(|s| s.to_string()).collect()
}

#[test]
fn the_pattern_is_the_marker_and_a_path_expression() {
    assert_eq!(TAG_PATTERN, "##!!(((~|.|..)?(/.+)+)|~)");
}

#[test]
fn marker_is_found_anywhere_in_a_line() {
    assert!(contains_marker(&chars("##!!")));
    assert!(contains_marker(&chars("##!!~/out1")));
    assert!(contains_marker(&chars("# comment ##!!/etc")));
    assert!(contains_marker(&chars("###!!x")));
    assert!(contains_marker(&chars("#!##!!")));
}

#[test]
fn marker_is_not_found_where_it_is_incomplete() {
    assert!(!contains_marker(&chars("")));
    assert!(!contains_marker(&chars("##!")));
    assert!(!contains_marker(&chars("#!#!")));
    assert!(!contains_marker(&chars("## !!")));
    assert!(!contains_marker(&chars("!!##")));
    assert!(!contains_marker(&chars("just a line of text")));
}

#[test]
fn contains_char_looks_at_every_character() {
    assert!(contains_char(&chars("~/x"), '~'));
    assert!(contains_char(&chars("a/b~"), '~'));
    assert!(!contains_char(&chars("a/b"), '~'));
    assert!(!contains_char(&chars(""), '~'));
}

#[test]
fn a_line_without_marker_has_no_tags() {
    assert_eq!(tags_in("export PATH=~/bin:$PATH"), Some(vec![]));
    assert_eq!(tags_in(""), Some(vec![]));
    assert_eq!(tags_in("~/out1"), Some(vec![]));
}

#[test]
fn a_tag_is_what_follows_the_marker() {
    assert_eq!(tags_in("##!!~/out1"), Some(texts(&["~/out1"])));
    assert_eq!(tags_in("##!!../sibling/out2"), Some(texts(&["../sibling/out2"])));
    assert_eq!(tags_in("##!!./test"), Some(texts(&["./test"])));
    assert_eq!(tags_in("##!!/etc/app"), Some(texts(&["/etc/app"])));
    assert_eq!(tags_in("# link me: ##!!~/dev"), Some(texts(&["~/dev"])));
}

#[test]
fn a_lone_tilde_is_a_tag() {
    assert_eq!(tags_in("##!!~"), Some(texts(&["~"])));
    assert_eq!(tags_in("##!!~ and more"), Some(texts(&["~"])));
}

#[test]
fn a_tag_runs_to_the_end_of_its_line() {
    assert_eq!(tags_in("##!!~/a b/c # note"), Some(texts(&["~/a b/c # note"])));
    assert_eq!(tags_in("##!!/a ##!!/b"), Some(texts(&["/a ##!!/b"])));
}

#[test]
fn a_line_can_hold_more_than_one_tag() {
    assert_eq!(tags_in("##!!~ ##!!/foo"), Some(texts(&["~", "/foo"])));
    assert_eq!(tags_in("##!!~##!!~"), Some(texts(&["~", "~"])));
}

#[test]
fn a_marker_without_path_expression_is_no_tag() {
    assert_eq!(tags_in("##!!"), Some(vec![]));
    assert_eq!(tags_in("##!!abc"), Some(vec![]));
    assert_eq!(tags_in("##!!abc/def"), Some(vec![]));
    assert_eq!(tags_in("##!!/"), Some(vec![]));
}

#[test]
fn a_stem_of_up_to_two_characters_may_lead_the_path() {
    assert_eq!(tags_in("##!!ab/c"), Some(texts(&["ab/c"])));
    assert_eq!(tags_in("##!!a/c"), Some(texts(&["a/c"])));
    assert_eq!(tags_in("##!!~x/y"), Some(texts(&["~x/y"])));
}

#[test]
fn tags_are_collected_line_after_line() {
    let lines = texts(&["# header", "##!!~/out1", "text", "##!!~ ##!!/foo", "##!!../sibling/out2"]);
    assert_eq!(
        collect_tags(&lines),
        Some(texts(&["~/out1", "~", "/foo", "../sibling/out2"]))
    );
    assert_eq!(collect_tags(&vec![]), Some(vec![]));
}

#[test]
fn normalize_takes_a_relative_path_from_any_absolute_base() {
    assert_eq!(normalize("./x", "/work/"), Ok("/work/x".to_string()));
    assert_eq!(normalize("x", "/work/."), Ok("/work/x".to_string()));
    assert_eq!(normalize("..", "//"), Ok("/".to_string()));
    assert_eq!(normalize("../..", "/."), Ok("/".to_string()));
    assert_eq!(normalize("x/../..", "/a/"), Ok("/".to_string()));
    assert_eq!(normalize("../x", "/a//b/"), Ok("/a/x".to_string()));
    assert_eq!(normalize("", "/a/./b"), Ok("/a/./b".to_string()));
}

#[test]
fn normalize_leaves_a_normal_path_as_it_is() {
    for path in ["/", "/a", "/home/u/out1", "/a.b/..c/d.", "/work/sibling/out2"] {
        assert_eq!(normalize(path, "/elsewhere"), Ok(path.to_string()));
        assert_eq!(normalize(path, "relative"), Ok(path.to_string()));
    }
}

#[test]
fn normalize_removes_dots_from_an_absolute_path() {
    assert_eq!(normalize("/path/to/./123/../456", "/work"), Ok("/path/to/456".to_string()));
    assert_eq!(normalize("/path/to/123/456", ""), Ok("/path/to/123/456".to_string()));
    assert_eq!(normalize("/a/../../b", "relative"), Ok("/b".to_string()));
    assert_eq!(normalize("/", "/work"), Ok("/".to_string()));
}

#[test]
fn normalize_takes_a_relative_path_from_the_base() {
    assert_eq!(normalize("proj/../sibling/out2", "/work"), Ok("/work/sibling/out2".to_string()));
    assert_eq!(normalize("./x", "/work"), Ok("/work/x".to_string()));
    assert_eq!(normalize("../x", "/work/proj"), Ok("/work/x".to_string()));
    assert_eq!(normalize("../x", "/"), Ok("/x".to_string()));
    assert_eq!(normalize("x/y", "/"), Ok("/x/y".to_string()));
    assert_eq!(normalize("", "/work"), Ok("/work".to_string()));
    assert_eq!(normalize("a/../../../b", "/work"), Ok("/b".to_string()));
}

#[test]
fn normalize_does_not_look_at_the_base_of_an_absolute_path() {
    assert_eq!(normalize("/home/u/./x", "/work"), normalize("/home/u/./x", "/elsewhere/deep"));
    assert_eq!(normalize("/home/u/./x", "/work"), normalize("/home/u/./x", "not absolute"));
}

#[test]
fn normalize_refuses_a_relative_path_without_anchor() {
    assert_eq!(normalize("x/y", "work"), Err(UNANCHORED.to_string()));
    assert_eq!(normalize("../x", ""), Err(UNANCHORED.to_string()));
    assert_eq!(normalize("./x", "./work"), Err(UNANCHORED.to_string()));
    assert_eq!(normalize("", "work"), Err(UNANCHORED.to_string()));
}

#[test]
fn a_tilde_tag_resolves_below_home() {
    let home = Some("/home/u".to_string());
    let found = resolve("~/x", "proj/notes.txt", "proj", "notes.txt", &home, "/work");
    assert_eq!(found.destination, Some("/home/u/x/notes.txt".to_string()));
    assert_eq!(
        found.notices,
        vec![
            Notice::Matched { capture: "~/x".to_string() },
            Notice::Tilde,
            Notice::Expanded { path: "/home/u/x".to_string() },
            Notice::Origin { path: "proj/notes.txt".to_string() },
            Notice::Destination { path: "/home/u/x/notes.txt".to_string() },
        ]
    );
}

#[test]
fn a_tilde_tag_resolves_alike_wherever_the_file_lies() {
    let home = Some("/home/u".to_string());
    let here = resolve("~/x", "proj/notes.txt", "proj", "notes.txt", &home, "/work");
    let there = resolve("~/x", "/srv/deep/down/notes.txt", "/srv/deep/down", "notes.txt", &home, "/");
    assert_eq!(here.destination, Some("/home/u/x/notes.txt".to_string()));
    assert_eq!(there.destination, here.destination);
}

#[test]
fn a_lone_tilde_resolves_to_home() {
    let home = Some("/home/u".to_string());
    let found = resolve("~", "file1.example", "", "file1.example", &home, "/work");
    assert_eq!(found.destination, Some("/home/u/file1.example".to_string()));
}

#[test]
fn a_tilde_stays_where_no_home_is_known() {
    let found = resolve("~/x", "proj/notes.txt", "proj", "notes.txt", &None, "/work");
    assert_eq!(found.destination, Some("/work/proj/~/x/notes.txt".to_string()));
    assert_eq!(found.notices[1], Notice::Tilde);
    assert_eq!(found.notices[2], Notice::Expanded { path: "proj/~/x".to_string() });
}

#[test]
fn a_tilde_inside_a_path_is_not_expanded() {
    let home = Some("/home/u".to_string());
    let found = resolve("/a/~/b", "proj/notes.txt", "proj", "notes.txt", &home, "/work");
    assert_eq!(found.destination, Some("/a/~/b/notes.txt".to_string()));
    assert_eq!(found.notices[1], Notice::Tilde);
    let other = resolve("~x/y", "proj/notes.txt", "proj", "notes.txt", &home, "/work");
    assert_eq!(other.destination, Some("/work/proj/~x/y/notes.txt".to_string()));
}

#[test]
fn a_relative_tag_resolves_from_the_directory_of_the_file() {
    let home = Some("/home/u".to_string());
    let dot = resolve("./x", "/srv/conf/notes.txt", "/srv/conf", "notes.txt", &home, "/work");
    assert_eq!(dot.destination, Some("/srv/conf/x/notes.txt".to_string()));
    let up = resolve("../x", "/srv/conf/notes.txt", "/srv/conf", "notes.txt", &home, "/work");
    assert_eq!(up.destination, Some("/srv/x/notes.txt".to_string()));
    let elsewhere = resolve("../x", "/srv/conf/notes.txt", "/srv/conf", "notes.txt", &home, "/tmp/other");
    assert_eq!(elsewhere.destination, up.destination);
    assert_eq!(
        up.notices,
        vec![
            Notice::Matched { capture: "../x".to_string() },
            Notice::Expanded { path: "/srv/conf/../x".to_string() },
            Notice::Origin { path: "/srv/conf/notes.txt".to_string() },
            Notice::Destination { path: "/srv/x/notes.txt".to_string() },
        ]
    );
}

#[test]
fn a_relative_file_is_taken_from_the_working_directory() {
    let found = resolve("../sibling/out2", "proj/notes.txt", "proj", "notes.txt", &None, "/work");
    assert_eq!(found.destination, Some("/work/sibling/out2/notes.txt".to_string()));
}

#[test]
fn a_tag_that_cannot_be_normalized_is_dropped_and_told() {
    let found = resolve("./x", "proj/notes.txt", "proj", "notes.txt", &None, "relative");
    assert_eq!(found.destination, None);
    assert_eq!(
        found.notices,
        vec![
            Notice::Matched { capture: "./x".to_string() },
            Notice::Expanded { path: "proj/./x".to_string() },
            Notice::Invalid { path: "./x".to_string(), error: UNANCHORED.to_string() },
        ]
    );
}

#[test]
fn groups_are_those_of_the_first_capture() {
    assert_eq!(groups_in("a(b+)", "ab abb a"), Some(texts(&["b", "bb"])));
    assert_eq!(groups_in("x", "xx"), Some(vec![]));
    assert_eq!(groups_in("(a)|b", "a b a"), Some(texts(&["a", "a"])));
    assert_eq!(groups_in(TAG_PATTERN, "##!!~/out1"), Some(texts(&["~/out1"])));
}

#[test]
fn a_pattern_that_the_matcher_rejects_captures_nothing() {
    assert_eq!(groups_in("(", "anything"), None);
    assert_eq!(groups_in("a{2,1}", "aa"), None);
}

#[test]
fn groups_that_took_no_part_are_left_out() {
    let groups = vec![Some("a".to_string()), None, Some("b".to_string()), None];
    assert_eq!(those_present(groups), texts(&["a", "b"]));
    assert_eq!(those_present(vec![None, None]), Vec::<String>::new());
    assert_eq!(those_present(vec![]), Vec::<String>::new());
}
