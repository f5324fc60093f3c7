//! The directories that popcorn works in, and how paths are put together.

use vstd::prelude::*;

use crate::text::{ends_with_char, push_char};

verus! {

/// `base` joined with the relative path `name`, as `Path::join` does it: a
/// separator is put between them unless `base` is empty or already ends
/// with one.
pub open spec fn joined(base: Seq<char>, name: Seq<char>, sep: char) -> Seq<char> {
    if base.len() == 0 {
        name
    } else if base.last() == sep {
        base + name
    } else {
        base + seq![sep] + name
    }
}

/// `base` joined with the relative path `name`.
pub fn join_path(base: &str, name: &str, sep: char) -> (r: String)
    ensures
        r@ == joined(base@, name@, sep),
{
    let mut r = base.to_owned();
    if base.unicode_len() > 0 && !ends_with_char(base, sep) {
        push_char(&mut r, sep);
    }
    r.append(name);
    r
}

/// `dir`, a separator and `name`, as `format!("{}{SEP}{}", dir, name)`.
pub fn child_path(dir: &str, sep: char, name: &str) -> (r: String)
    ensures
        r@ == dir@ + seq![sep] + name@,
{
    let mut r = dir.to_owned();
    push_char(&mut r, sep);
    r.append(name);
    r
}

/// The scratch directory for downloads: `popcorn-kernel` in the system's
/// temporary directory on Windows, in `/tmp` elsewhere.
pub fn tmp_dir(windows: bool, system_temp: &str, sep: char) -> (r: String)
    ensures
        r@ == joined(if windows { system_temp@ } else { "/tmp"@ }, "popcorn-kernel"@, sep),
{
    if windows {
        join_path(system_temp, "popcorn-kernel", sep)
    } else {
        join_path("/tmp", "popcorn-kernel", sep)
    }
}

/// The directory of development kernels: `.popcorn` in the working
/// directory, or empty when that is unknown.
pub fn dev_dir(cwd: Option<&str>, sep: char) -> (r: String)
    ensures
        r@ == match cwd {
            Some(c) => joined(c@, ".popcorn"@, sep),
            None => Seq::<char>::empty(),
        },
{
    match cwd {
        Some(c) => join_path(c, ".popcorn", sep),
        None => String::new(),
    }
}

/// The directory of production kernels: `.kernels` in the home directory,
/// or empty when that is unknown.
pub fn prod_dir(home: Option<&str>, sep: char) -> (r: String)
    ensures
        r@ == match home {
            Some(h) => joined(h@, ".kernels"@, sep),
            None => Seq::<char>::empty(),
        },
{
    match home {
        Some(h) => join_path(h, ".kernels", sep),
        None => String::new(),
    }
}

} // verus!
