//! Links to files, made where the files say.
//!
//! A file asks for a link to itself by a tag: a line that holds the marker
//! `##!!` and, right behind it, the directory in which the link is wanted.
//! A run walks a file or a tree of directories, scans every file for tags,
//! and then makes the links, or removes them.
//!
//! The library does not touch the file system. A run is driven step by
//! step: [`autolink::Autolink::begin`] gives a [`run::Run`], which says by
//! [`run::Run::request`] what it needs done; the caller does it and hands the
//! [`request::Reply`] to [`autolink::Autolink::do_op`], which gives the next
//! state of the run and the [`notice::Notice`]s to tell, until
//! [`run::Run::outcome`] says that the run is over. The two halves of a run
//! can be driven alone in the same way: discovery by
//! [`autolink::Autolink::find_links`], the materialization of one file by
//! [`link::Link::link`] and [`link::Link::delete`].

pub mod autolink;
pub mod bindings;
pub mod descent;
pub mod laws;
pub mod link;
pub mod model;
pub mod notice;
pub mod paths;
pub mod request;
pub mod run;
pub mod tags;
pub mod walk;
pub mod world;
