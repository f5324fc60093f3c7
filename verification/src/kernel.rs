//! Building a kernel: the directory it is built into, the seed command that
//! compiles it there, and the husk script that starts an unpacked kernel.

use vstd::prelude::*;

use crate::paths::{join_path, joined};
use crate::text::{
    contains, ends_with_char, law_replace_without_match, lowercase_is, push_char, replace,
    replace_str, text_eq, unicode_lowercase,
};

verus! {

/// Whether the kernel is unpacked (a directory behind a husk), by the
/// lowercase form of its type.
pub fn is_unpacked(kernel_type: &str) -> (r: bool)
    ensures
        r == (unicode_lowercase(kernel_type@) == "unpacked"@),
{
    lowercase_is(kernel_type, "unpacked")
}

/// Whether a kernel is built into a directory of its own under the
/// production directory: an unpacked kernel always is, a packed one when an
/// output directory was asked for (`-o`).
pub fn has_own_dir(kernel_type: &str, custom_output: bool) -> (r: bool)
    ensures
        r == (unicode_lowercase(kernel_type@) == "unpacked"@ || custom_output),
{
    is_unpacked(kernel_type) || custom_output
}

/// The name under which a kernel is built: the requested output, or the
/// kernel's name, followed by a separator when the kernel has a directory
/// of its own.
pub fn kernel_output(output: Option<&str>, kernel_name: &str, kernel_type: &str, sep: char) -> (r:
    String)
    ensures
        r@ == (match output {
            Some(o) => o@,
            None => kernel_name@,
        }) + (if unicode_lowercase(kernel_type@) == "unpacked"@ || output is Some {
            seq![sep]
        } else {
            Seq::<char>::empty()
        }),
{
    let mut r = match output {
        Some(o) => o.to_owned(),
        None => kernel_name.to_owned(),
    };
    if has_own_dir(kernel_type, output.is_some()) {
        push_char(&mut r, sep);
    } else {
        assert(r@ + Seq::<char>::empty() =~= r@);
    }
    r
}

/// The directory a production kernel is built into: its own directory
/// `<production dir>/<output>` when it has one, the production directory
/// itself otherwise.
pub fn build_dir(prod_dir: &str, output: &str, sep: char, own_dir: bool) -> (r: String)
    ensures
        r@ == (if own_dir {
            joined(prod_dir@, output@, sep)
        } else {
            prod_dir@
        }),
{
    if own_dir {
        join_path(prod_dir, output, sep)
    } else {
        prod_dir.to_owned()
    }
}

/// Whether the seed command builds into the kernel's own directory rather
/// than into the production directory itself: when the kernel type is
/// `unpacked` as written, letter for letter, or an output directory was asked
/// for (`-o`). A type such as `Unpacked` seeds into the production directory.
pub fn seeds_into_own_dir(kernel_type: &str, custom_output: bool) -> (r: bool)
    ensures
        r == (kernel_type@ == "unpacked"@ || custom_output),
{
    text_eq(kernel_type, "unpacked") || custom_output
}

/// Whether the build directory is made before the seed command runs: for a
/// production build that seeds into the kernel's own directory.
pub fn seed_makes_output_dir(own_dir: bool, is_dev: bool) -> (r: bool)
    ensures
        r == (own_dir && !is_dev),
{
    own_dir && !is_dev
}

/// The seed command that is run: the configured one as written, every
/// `@dest` replaced by the directory the kernel is built into.
pub fn seed_command(config_seed: &str, dest: &str) -> (r: String)
    ensures
        r@ == replace(config_seed@, "@dest"@, dest@),
{
    replace_str(config_seed, "@dest", dest)
}

/// A seed command without `@dest` runs as configured.
pub proof fn law_seed_without_placeholder(config_seed: Seq<char>, dest: Seq<char>)
    requires
        !contains(config_seed, "@dest"@),
    ensures
        replace(config_seed, "@dest"@, dest) == config_seed,
{
    reveal_strlit("@dest");
    law_replace_without_match(config_seed, "@dest"@, dest);
}

/// `path` without one separator at its end.
pub open spec fn without_trailing_sep(path: Seq<char>, sep: char) -> Seq<char> {
    if path.len() > 0 && path.last() == sep {
        path.drop_last()
    } else {
        path
    }
}

/// What `@local` stands for in a production husk: the kernel's own
/// directory, `<production dir>/<output>`, without a separator at its end.
pub fn husk_local(prod_dir: &str, output: &str, sep: char) -> (r: String)
    ensures
        r@ == without_trailing_sep(joined(prod_dir@, output@, sep), sep),
{
    let dir = join_path(prod_dir, output, sep);
    if ends_with_char(dir.as_str(), sep) {
        let n = dir.as_str().unicode_len();
        dir.as_str().substring_char(0, n - 1).to_owned()
    } else {
        dir
    }
}

/// The command in a husk: the configured one as written, `@args` replaced
/// by `$@`, then `@local` by the kernel's directory.
pub fn husk_command(husk: &str, local: &str) -> (r: String)
    ensures
        r@ == replace(replace(husk@, "@args"@, "$@"@), "@local"@, local@),
{
    let with_args = replace_str(husk, "@args", "$@");
    replace_str(with_args.as_str(), "@local", local)
}

/// The husk file: a bash script that runs the husk command.
pub fn husk_script(stem: &str) -> (r: String)
    ensures
        r@ == "#!/bin/bash\n"@ + stem@,
{
    let mut r = String::new();
    r.append("#!/bin/bash\n");
    r.append(stem);
    r
}

/// Where the husk of a production kernel is written:
/// `<production dir>/<output><kernel name>`.
pub fn husk_path(prod_dir: &str, sep: char, output: &str, kernel_name: &str) -> (r: String)
    ensures
        r@ == prod_dir@ + seq![sep] + output@ + kernel_name@,
{
    let mut r = prod_dir.to_owned();
    push_char(&mut r, sep);
    r.append(output);
    r.append(kernel_name);
    r
}

} // verus!
