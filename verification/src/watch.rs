//! The development loop: which file-system events lead to a rebuild.

use vstd::prelude::*;

use crate::text::contains;
use crate::text::contains_str;

verus! {

/// A file-system event, as the watcher reports it.
#[derive(Debug, Clone)]
pub enum WatchEvent {
    NoticeWrite(String),
    NoticeRemove(String),
    Create(String),
    Write(String),
    Chmod(String),
    Remove(String),
    /// A rename, from the first path to the second.
    Rename(String, String),
    Rescan,
    /// A watcher error: its text, and the path it names as printed.
    Error(String, String),
}

/// What the development loop does with an event.
#[derive(Debug, Clone)]
pub enum EventRoute {
    /// Nothing.
    Ignore,
    /// Print this error.
    Report(String),
    /// Look at this changed path.
    Inspect(String),
}

/// Notices and rescans are ignored, errors are reported, and the path of
/// any other change (the new path of a rename) is looked at.
pub fn route_event(event: &WatchEvent) -> (r: EventRoute)
    ensures
        match event {
            WatchEvent::NoticeWrite(_) | WatchEvent::NoticeRemove(_) | WatchEvent::Rescan => r is Ignore,
            WatchEvent::Error(err, path) => r matches EventRoute::Report(m) && m@ == err@
                + " with path "@ + path@,
            WatchEvent::Create(p) | WatchEvent::Write(p) | WatchEvent::Chmod(p)
            | WatchEvent::Remove(p) | WatchEvent::Rename(_, p) => r matches EventRoute::Inspect(q)
                && q@ == p@,
        },
{
    match event {
        WatchEvent::NoticeWrite(_) | WatchEvent::NoticeRemove(_) | WatchEvent::Rescan => {
            EventRoute::Ignore
        },
        WatchEvent::Error(err, path) => {
            let mut m = err.clone();
            m.append(" with path ");
            m.append(path.as_str());
            EventRoute::Report(m)
        },
        WatchEvent::Create(p) | WatchEvent::Write(p) | WatchEvent::Chmod(p) | WatchEvent::Remove(p)
        | WatchEvent::Rename(_, p) => EventRoute::Inspect(p.as_str().to_owned()),
    }
}

/// Whether two paths are equal as `Path`s are compared (component by
/// component): what `Path::new(a) == Path::new(b)` returns.
pub uninterp spec fn same_path(a: Seq<char>, b: Seq<char>) -> bool;

/// `Path::new(a) == Path::new(b)`; its result is named, not restated.
#[verifier::external_body]
fn paths_equal(a: &str, b: &str) -> (r: bool)
    ensures
        r == same_path(a@, b@),
{
    std::path::Path::new(a) == std::path::Path::new(b)
}

/// How a changed path is handled before git is asked about it.
#[derive(Debug, Clone, Copy, PartialEq, Eq, Structural)]
pub enum ChangeCheck {
    /// A directory: no rebuild.
    Skip,
    /// The config changed: warn that the command must be rerun.
    ConfigChanged,
    /// Ask git whether the path is ignored; rebuild when it is not.
    AskGit,
}

/// Directories are skipped, a change of `./.kernelrc` is warned about, any
/// other path goes to git.
pub fn check_change(is_dir: bool, path: &str) -> (r: ChangeCheck)
    ensures
        r == (if is_dir {
            ChangeCheck::Skip
        } else if same_path(path@, "./.kernelrc"@) {
            ChangeCheck::ConfigChanged
        } else {
            ChangeCheck::AskGit
        }),
{
    if is_dir {
        ChangeCheck::Skip
    } else if paths_equal(path, "./.kernelrc") {
        ChangeCheck::ConfigChanged
    } else {
        ChangeCheck::AskGit
    }
}

/// The directory that is watched: the one asked for, else `.`.
pub fn listen_dir(listen: Option<&str>) -> (r: String)
    ensures
        r@ == match listen {
            Some(d) => d@,
            None => "."@,
        },
{
    match listen {
        Some(d) => d.to_owned(),
        None => {
            let mut r = String::new();
            r.append(".");
            r
        },
    }
}

/// Whether the development kernels are installed: `PATH` holds their
/// directory.
pub fn dev_installed(path_var: &str, dev_dir: &str) -> (r: bool)
    ensures
        r == contains(path_var@, dev_dir@),
{
    contains_str(path_var, dev_dir)
}

} // verus!
