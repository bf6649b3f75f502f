use autolink::autolink::Autolink;
use autolink::notice::{no_notice, one_notice, phrase, two_notices, Notice};

fn config(verbose: bool) -> Autolink {
    Autolink {
        path: "proj".to_string(),
        create_dirs: false,
        overwrite: false,
        delete: false,
        verbose,
    }
}

fn text(s: &str) -> String {
    s.to_string()
}

#[test]
fn log_indents_by_level() {
    let autolink = config(false);
    assert_eq!(autolink.log(text("hello"), 0), "> hello");
    assert_eq!(autolink.log(text("hello"), 1), "=> hello");
    assert_eq!(autolink.log(text("hello"), 3), "===> hello");
    assert_eq!(autolink.log(text(""), 2), "==> ");
}

#[test]
fn verbose_speaks_only_when_asked() {
    assert_eq!(config(false).verbose(text("hello"), 1), None);
    assert_eq!(config(true).verbose(text("hello"), 1), Some(text("=> hello")));
    assert_eq!(config(true).verbose(text("deep"), 3), Some(text("===> deep")));
}

#[test]
fn spacer_is_a_rule_between_empty_lines() {
    assert_eq!(Autolink::spacer(), vec![text(""), text("=========================="), text("")]);
    assert_eq!(config(false).report(&Notice::Spacer), Autolink::spacer());
    assert_eq!(config(true).report(&Notice::Spacer), Autolink::spacer());
}

#[test]
fn phrase_puts_one_text_behind_the_other() {
    assert_eq!(phrase("Skipping ", "proj"), "Skipping proj");
    assert_eq!(phrase("", ""), "");
}

#[test]
fn every_notice_has_its_sentence() {
    let cases = vec![
        (Notice::Spacer, ""),
        (Notice::RemovingAll { root: text("proj") }, "Removing all symlinks from proj"),
        (Notice::LinkingAll { root: text("proj") }, "Symlinking all files in proj"),
        (Notice::Scanning { path: text("a/b") }, "Getting links from a/b"),
        (Notice::Opening { path: text("a/b") }, "Trying to open file a/b"),
        (
            Notice::Matched { capture: text("~/x") },
            "Matched: '##!!~/x', extracted substring: ~/x",
        ),
        (Notice::Tilde, "Found tilde, replacing"),
        (Notice::Expanded { path: text("/home/u/x") }, "Expanded path: /home/u/x"),
        (Notice::Origin { path: text("/o") }, "Origin: /o"),
        (Notice::Destination { path: text("/d") }, "Destination: /d"),
        (Notice::Invalid { path: text("./x"), error: text("bad") }, "Path ./x is not valid: bad"),
        (Notice::Checking { path: text("dir") }, "Checking directory dir"),
        (Notice::Skipping { path: text("odd") }, "Skipping odd"),
        (Notice::Removing { destination: text("/d") }, "Removing link /d"),
        (
            Notice::RemoveFailed { destination: text("/d"), error: text("Is a directory") },
            "Removing link /d failed: Is a directory",
        ),
        (Notice::Absent { destination: text("/d") }, "No link at /d"),
        (
            Notice::CreatingDirectories { parent: text("/p") },
            "Creating all directories for path /p",
        ),
        (Notice::Overwriting, "Deleting symlink to overwrite."),
        (Notice::Linked { origin: text("/o"), destination: text("/d") }, "Symlinked /o to /d"),
        (
            Notice::LinkFailed { origin: text("/o"), destination: text("/d"), error: text("File exists") },
            "Symlinking /o to /d failed: File exists",
        ),
    ];
    for (notice, sentence) in cases {
        assert_eq!(notice.text(), sentence);
    }
}

#[test]
fn details_stand_deeper_than_steps() {
    assert_eq!(Notice::Opening { path: text("a") }.level(), 3);
    assert_eq!(Notice::Matched { capture: text("a") }.level(), 3);
    assert_eq!(Notice::Tilde.level(), 3);
    assert_eq!(Notice::Expanded { path: text("a") }.level(), 3);
    assert_eq!(Notice::Origin { path: text("a") }.level(), 3);
    assert_eq!(Notice::Destination { path: text("a") }.level(), 3);
    assert_eq!(Notice::Invalid { path: text("a"), error: text("e") }.level(), 3);
    assert_eq!(Notice::Scanning { path: text("a") }.level(), 1);
    assert_eq!(Notice::Absent { destination: text("a") }.level(), 1);
    assert_eq!(Notice::Overwriting.level(), 1);
    assert_eq!(Notice::Linked { origin: text("o"), destination: text("d") }.level(), 1);
}

#[test]
fn details_are_told_only_to_the_verbose() {
    let quiet = config(false);
    let loud = config(true);
    let detail = Notice::Absent { destination: text("/d") };
    assert!(detail.is_detail());
    assert_eq!(quiet.report(&detail), Vec::<String>::new());
    assert_eq!(loud.report(&detail), vec![text("=> No link at /d")]);
    let deep = Notice::Destination { path: text("/d") };
    assert_eq!(quiet.report(&deep), Vec::<String>::new());
    assert_eq!(loud.report(&deep), vec![text("===> Destination: /d")]);
}

#[test]
fn steps_and_failures_are_told_to_everyone() {
    let quiet = config(false);
    let invalid = Notice::Invalid { path: text("./x"), error: text("bad") };
    assert!(!invalid.is_detail());
    assert_eq!(quiet.report(&invalid), vec![text("===> Path ./x is not valid: bad")]);
    let failed = Notice::LinkFailed { origin: text("/o"), destination: text("/d"), error: text("File exists") };
    assert_eq!(quiet.report(&failed), vec![text("=> Symlinking /o to /d failed: File exists")]);
    assert_eq!(config(true).report(&failed), quiet.report(&failed));
    let stuck = Notice::RemoveFailed { destination: text("/d"), error: text("busy") };
    assert!(!stuck.is_detail());
    assert_eq!(stuck.level(), 1);
    assert_eq!(quiet.report(&stuck), vec![text("=> Removing link /d failed: busy")]);
}

#[test]
fn notices_are_gathered_in_order() {
    assert_eq!(no_notice(), Vec::<Notice>::new());
    assert_eq!(one_notice(Notice::Tilde), vec![Notice::Tilde]);
    assert_eq!(
        two_notices(Notice::Spacer, Notice::Overwriting),
        vec![Notice::Spacer, Notice::Overwriting]
    );
}
