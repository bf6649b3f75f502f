//! The configuration of a run, what it tells its user, and the two halves of
//! a run: the discovery of tagged files and their materialization.

use crate::link::{Link, LinkView};
use crate::notice::{is_detail, level_of, text_of, Notice, NoticeView};
use crate::paths::{file_name, file_name_of, is_absolute, parent, parent_of};
use crate::request::Failure;
use crate::tags::{all_captures, collect_tags, destinations_of, notices_of, resolve};
use vstd::prelude::*;
use vstd::string::*;

verus! {

/// What the user asked for.
#[derive(Clone, PartialEq, Eq, Debug)]
pub struct Autolink {
    /// The file or directory to scan.
    pub path: String,
    /// Create folders that do not exist yet.
    pub create_dirs: bool,
    /// Delete existing symlinks and add again, effectively overwriting existing links.
    pub overwrite: bool,
    /// Delete all symlinks specified in the provided folder or file.
    pub delete: bool,
    /// Show verbose logs.
    pub verbose: bool,
}

/// An `Autolink` with its path as a sequence of characters.
pub struct AutolinkView {
    pub path: Seq<char>,
    pub create_dirs: bool,
    pub overwrite: bool,
    pub delete: bool,
    pub verbose: bool,
}

impl View for Autolink {
    type V = AutolinkView;

    open spec fn view(&self) -> AutolinkView {
        AutolinkView {
            path: self.path@,
            create_dirs: self.create_dirs,
            overwrite: self.overwrite,
            delete: self.delete,
            verbose: self.verbose,
        }
    }
}

/// Where the run takes place.
#[derive(Clone, PartialEq, Eq, Debug)]
pub struct Environment {
    /// The home directory of the user, where it is known.
    pub home: Option<String>,
    /// The working directory of the process.
    pub working_directory: String,
}

/// The line that tells `message` at `level`: as many `=` as the level, `>`,
/// a blank and the message.
pub open spec fn logged(message: Seq<char>, level: nat) -> Seq<char> {
    Seq::new(level, |i: int| '=') + seq!['>', ' '] + message
}

/// The lines of a spacer: a rule of `=` between two empty lines.
pub open spec fn spacer_lines() -> Seq<Seq<char>> {
    seq![Seq::empty(), "=========================="@, Seq::empty()]
}

/// The lines that tell `notice` to a user who did or did not ask for verbose
/// output: the spacer takes three, a detail none unless asked for, any other
/// notice one.
pub open spec fn lines_of(notice: NoticeView, verbose: bool) -> Seq<Seq<char>> {
    if notice is Spacer {
        spacer_lines()
    } else if verbose || !is_detail(notice) {
        seq![logged(text_of(notice), level_of(notice))]
    } else {
        Seq::empty()
    }
}

/// What the scan of a file gave: the file with its destinations, and what is
/// told of its tags.
#[derive(Clone, PartialEq, Eq, Debug)]
pub struct Scan {
    pub link: Link,
    pub notices: Vec<Notice>,
}

/// A `Scan` with its texts as sequences of characters.
pub struct ScanView {
    pub link: LinkView,
    pub notices: Seq<NoticeView>,
}

impl View for Scan {
    type V = ScanView;

    open spec fn view(&self) -> ScanView {
        ScanView { link: self.link@, notices: self.notices.deep_view() }
    }
}

/// What the scan of the file `origin` gives, whose canonical path is
/// `canonical` and whose lines are `lines`: one destination for each tag
/// whose directory can be normalized, in the order of the tags. The file must
/// lie in a directory and have a base name, and the matcher must accept the
/// tag pattern.
pub open spec fn scan_of(
    origin: Seq<char>,
    canonical: Seq<char>,
    lines: Seq<Seq<char>>,
    home: Option<Seq<char>>,
    base: Seq<char>,
) -> Result<ScanView, Failure> {
    match (parent(origin), file_name(origin), all_captures(lines)) {
        (None, _, _) => Err(Failure::NoParent),
        (Some(_), None, _) => Err(Failure::NoFileName),
        (Some(_), Some(_), None) => Err(Failure::Pattern),
        (Some(directory), Some(name), Some(captures)) => Ok(
            ScanView {
                link: LinkView {
                    origin: canonical,
                    destinations: destinations_of(captures, directory, name, home, base),
                },
                notices: notices_of(captures, origin, directory, name, home, base),
            },
        ),
    }
}

impl Autolink {
    /// Creates a simple spacer consisting of = surrounded by empty lines.
    pub fn spacer() -> (lines: Vec<String>)
        ensures
            lines.deep_view() == spacer_lines(),
    {
        let mut lines: Vec<String> = Vec::new();
        lines.push(String::new());
        lines.push("==========================".to_owned());
        lines.push(String::new());
        lines
    }

    /// Log a message with a given indentation-level.
    pub fn log(&self, message: String, level: usize) -> (line: String)
        ensures
            line@ == logged(message@, level as nat),
    {
        let mut line = String::new();
        let mut depth: usize = 0;
        while depth < level
            invariant
                depth <= level,
                line@ == Seq::new(depth as nat, |i: int| '='),
            decreases level - depth,
        {
            proof {
                reveal_strlit("=");
            }
            line.append("=");
            depth = depth + 1;
        }
        proof {
            reveal_strlit("> ");
        }
        line.append("> ");
        line.append(message.as_str());
        line
    }

    /// Only log a message when verbose is specifed.
    pub fn verbose(&self, message: String, level: usize) -> (line: Option<String>)
        ensures
            line.deep_view() == if self.verbose {
                Some(logged(message@, level as nat))
            } else {
                None
            },
    {
        if self.verbose {
            Some(self.log(message, level))
        } else {
            None
        }
    }

    /// The lines that tell `notice` to the user of this run.
    pub fn report(&self, notice: &Notice) -> (lines: Vec<String>)
        ensures
            lines.deep_view() == lines_of(notice@, self.verbose),
    {
        if let Notice::Spacer = notice {
            return Autolink::spacer();
        }
        let mut lines: Vec<String> = Vec::new();
        let told = if notice.is_detail() {
            self.verbose(notice.text(), notice.level())
        } else {
            Some(self.log(notice.text(), notice.level()))
        };
        match told {
            Some(line) => {
                lines.push(line);
            },
            None => {},
        }
        lines
    }

    /// Get all links from a file: from its path as it was found, its
    /// canonical path and its lines.
    pub fn get_link(
        &self,
        environment: &Environment,
        origin: &str,
        canonical: String,
        lines: &Vec<String>,
    ) -> (found: Result<Scan, Failure>)
        ensures
            match found {
                Ok(scan) => scan_of(
                    origin@,
                    canonical@,
                    lines.deep_view(),
                    environment.home.deep_view(),
                    environment.working_directory@,
                ) == Ok::<ScanView, Failure>(scan@),
                Err(failure) => scan_of(
                    origin@,
                    canonical@,
                    lines.deep_view(),
                    environment.home.deep_view(),
                    environment.working_directory@,
                ) == Err::<ScanView, Failure>(failure),
            },
            found matches Ok(scan) ==> forall|i: int|
                0 <= i < scan.link.destinations.len() ==> is_absolute(
                    #[trigger] scan.link.destinations[i]@,
                ),
    {
        let directory = match parent_of(origin) {
            Some(directory) => directory,
            None => {
                return Err(Failure::NoParent);
            },
        };
        let name = match file_name_of(origin) {
            Some(name) => name,
            None => {
                return Err(Failure::NoFileName);
            },
        };
        let captures = match collect_tags(lines) {
            Some(captures) => captures,
            None => {
                return Err(Failure::Pattern);
            },
        };
        let ghost home = environment.home.deep_view();
        let ghost base = environment.working_directory@;
        let mut destinations: Vec<String> = Vec::new();
        let mut notices: Vec<Notice> = Vec::new();
        let mut at: usize = 0;
        while at < captures.len()
            invariant
                at <= captures.len(),
                home == environment.home.deep_view(),
                base == environment.working_directory@,
                destinations.deep_view() == destinations_of(
                    captures.deep_view().take(at as int),
                    directory@,
                    name@,
                    home,
                    base,
                ),
                notices.deep_view() == notices_of(
                    captures.deep_view().take(at as int),
                    origin@,
                    directory@,
                    name@,
                    home,
                    base,
                ),
                forall|i: int|
                    0 <= i < destinations.len() ==> is_absolute(#[trigger] destinations[i]@),
            decreases captures.len() - at,
        {
            assert(captures.deep_view().take(at + 1).drop_last() =~= captures.deep_view().take(
                at as int,
            ));
            let mut resolved = resolve(
                captures[at].as_str(),
                origin,
                directory.as_str(),
                name.as_str(),
                &environment.home,
                environment.working_directory.as_str(),
            );
            notices.append(&mut resolved.notices);
            if let Some(destination) = resolved.destination {
                destinations.push(destination);
            }
            at = at + 1;
        }
        assert(captures.deep_view().take(at as int) =~= captures.deep_view());
        Ok(Scan { link: Link { origin: canonical, destinations }, notices })
    }
}

} // verus!
