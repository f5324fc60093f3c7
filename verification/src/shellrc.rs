//! Edits of the shell start-up files and of `PATH`: the lines that put the
//! kernels on the path, and the removal of the lines that mention a kernel.

use vstd::prelude::*;

use crate::text::{
    contains, contains_str, join, join_strs, keep_lacking, lacks, last_piece, lemma_kept_join_lacks,
    lines, lines_str, occurs_at, push_char, split, split_str, text_eq,
};

verus! {

/// The name of the shell program: what follows the last `/` of `$SHELL`.
pub fn shell_program(shell: &str) -> (r: String)
    ensures
        r@ == split(shell@, seq!['/']).last(),
{
    last_piece(shell, '/')
}

/// The shell's start-up file in the home directory: `.<shell>rc`.
pub fn rc_file_name(shell: &str) -> (r: String)
    ensures
        r@ == seq!['.'] + split(shell@, seq!['/']).last() + seq!['r', 'c'],
{
    let program = shell_program(shell);
    let mut r = String::new();
    push_char(&mut r, '.');
    r.append(program.as_str());
    push_char(&mut r, 'r');
    push_char(&mut r, 'c');
    r
}

/// The command that re-reads a start-up file.
pub fn source_command(rc_path: &str) -> (r: String)
    ensures
        r@ == "source "@ + rc_path@,
{
    let mut r = String::new();
    r.append("source ");
    r.append(rc_path);
    r
}

/// The line of a start-up file that sources the kernels' path script.
pub open spec fn butter_line(sep: char) -> Seq<char> {
    ". $HOME"@ + seq![sep] + ".kernels"@ + seq![sep] + "butter.sh\n"@
}

/// The line of a start-up file that sources the kernels' path script.
pub fn butter_source_line(sep: char) -> (r: String)
    ensures
        r@ == butter_line(sep),
{
    let mut r = String::new();
    r.append(". $HOME");
    push_char(&mut r, sep);
    r.append(".kernels");
    push_char(&mut r, sep);
    r.append("butter.sh\n");
    r
}

/// The text to append to a file so that it mentions `probe`: `addition`
/// when the file does not mention `probe` yet, else nothing.
pub fn addition_if_missing(contents: &str, probe: &str, addition: &str) -> (r: Option<String>)
    ensures
        r is None <==> contains(contents@, probe@),
        r matches Some(a) ==> a@ == addition@,
{
    if contains_str(contents, probe) {
        None
    } else {
        Some(addition.to_owned())
    }
}

/// Once an addition that mentions the probe has been appended, a second
/// attempt appends nothing.
pub proof fn law_addition_is_idempotent(contents: Seq<char>, probe: Seq<char>, addition: Seq<char>)
    requires
        contains(addition, probe),
    ensures
        contains(contents + addition, probe),
{
    let i = choose|i: int| occurs_at(addition, probe, i);
    let s = contents + addition;
    assert(s.subrange(contents.len() + i, contents.len() + i + probe.len()) =~= addition.subrange(
        i,
        i + probe.len(),
    ));
    assert(occurs_at(s, probe, contents.len() + i));
}

/// Once the path script is sourced from a start-up file, a second attempt
/// appends nothing.
pub proof fn law_butter_line_once(contents: Seq<char>, sep: char)
    ensures
        contains(contents + butter_line(sep), butter_line(sep)),
{
    let line = butter_line(sep);
    assert(line.subrange(0, line.len() as int) =~= line);
    assert(occurs_at(line, line, 0));
    law_addition_is_idempotent(contents, line, line);
}

/// The entry that the path script adds for a kernel: its own directory in
/// the production directory when it has one, the production directory
/// itself otherwise.
pub fn kernel_path_entry(own_dir: bool, prod_dir: &str, sep: char, output: &str) -> (r: String)
    ensures
        r@ == (if own_dir {
            prod_dir@ + seq![sep] + output@
        } else {
            prod_dir@
        }),
{
    if own_dir {
        let mut r = prod_dir.to_owned();
        push_char(&mut r, sep);
        r.append(output);
        r
    } else {
        prod_dir.to_owned()
    }
}

/// The path script's line that adds `entry` to `PATH`.
pub open spec fn export_text(path_sep: char, entry: Seq<char>) -> Seq<char> {
    "export PATH=$PATH"@ + seq![path_sep] + entry
}

/// The path script's line that adds `entry` to `PATH`.
pub fn export_line(path_sep: char, entry: &str) -> (r: String)
    ensures
        r@ == export_text(path_sep, entry@),
{
    let mut r = String::new();
    r.append("export PATH=$PATH");
    push_char(&mut r, path_sep);
    r.append(entry);
    r
}

/// A new path script that adds `entry` to `PATH`.
pub fn new_path_script(path_sep: char, entry: &str) -> (r: String)
    ensures
        r@ == "#!/bin/bash\n"@ + export_text(path_sep, entry@),
{
    let line = export_line(path_sep, entry);
    let mut r = String::new();
    r.append("#!/bin/bash\n");
    r.append(line.as_str());
    r
}

/// What is appended to an existing path script that does not add `entry`
/// yet: a line end and the line that adds it.
pub fn path_script_addition(script: &str, path_sep: char, entry: &str) -> (r: Option<String>)
    ensures
        r is None <==> contains(script@, export_text(path_sep, entry@)),
        r matches Some(a) ==> a@ == seq!['\n'] + export_text(path_sep, entry@),
{
    let line = export_line(path_sep, entry);
    let mut addition = String::new();
    push_char(&mut addition, '\n');
    addition.append(line.as_str());
    addition_if_missing(script, line.as_str(), addition.as_str())
}

/// Once a kernel's entry is added to the path script, a second attempt
/// appends nothing.
pub proof fn law_path_export_once(script: Seq<char>, path_sep: char, entry: Seq<char>)
    ensures
        contains(script + (seq!['\n'] + export_text(path_sep, entry)), export_text(path_sep, entry)),
{
    let line = export_text(path_sep, entry);
    let addition = seq!['\n'] + line;
    assert(addition.subrange(1, 1 + line.len() as int) =~= line);
    assert(occurs_at(addition, line, 1));
    law_addition_is_idempotent(script, line, addition);
}

/// The start of an empty path script.
pub fn empty_path_script() -> (r: String)
    ensures
        r@ == "#!/bin/bash\n"@,
{
    let mut r = String::new();
    r.append("#!/bin/bash\n");
    r
}

/// What installing the development kernels does to the start-up file.
pub enum DevInstallStep {
    /// The development directory is unknown.
    NoDevDir,
    /// `PATH` already holds the development directory.
    AlreadyInstalled,
    /// This text is to be appended to the start-up file.
    Append(String),
}

/// The step that installs the development kernels, given the development
/// directory, `PATH` and the path separator: the appended line adds the
/// directory to `PATH` as an entry of its own.
pub fn plan_dev_install(dev_dir: &str, path_var: &str, path_sep: char) -> (r: DevInstallStep)
    ensures
        r is NoDevDir <==> dev_dir@.len() == 0,
        r is AlreadyInstalled <==> dev_dir@.len() > 0 && contains(path_var@, dev_dir@),
        r matches DevInstallStep::Append(line) ==> line@ == "\n"@ + export_text(path_sep, dev_dir@)
            + "\n"@,
{
    if dev_dir.unicode_len() == 0 {
        DevInstallStep::NoDevDir
    } else if contains_str(path_var, dev_dir) {
        DevInstallStep::AlreadyInstalled
    } else {
        let export = export_line(path_sep, dev_dir);
        let mut line = String::new();
        line.append("\n");
        line.append(export.as_str());
        line.append("\n");
        DevInstallStep::Append(line)
    }
}

/// The mention of the path script that installing the production kernels
/// looks for in the start-up file.
pub open spec fn butter_probe() -> Seq<char> {
    ". $HOME/.kernels/butter.sh"@
}

/// The start-up file with the path script sourced at its top, unless it
/// already mentions the path script.
pub fn with_butter_sourced(contents: &str) -> (r: Option<String>)
    ensures
        r is None <==> contains(contents@, butter_probe()),
        r matches Some(all) ==> all@ == butter_probe() + seq!['\n'] + contents@,
{
    let probe = ". $HOME/.kernels/butter.sh";
    if contains_str(contents, probe) {
        None
    } else {
        let mut all = String::new();
        all.append(probe);
        push_char(&mut all, '\n');
        all.append(contents);
        Some(all)
    }
}

/// Once the path script is sourced, sourcing it again changes nothing.
pub proof fn law_butter_sourced_once(contents: Seq<char>)
    ensures
        contains(butter_probe() + seq!['\n'] + contents, butter_probe()),
{
    let s = butter_probe() + seq!['\n'] + contents;
    assert(s.subrange(0, butter_probe().len() as int) =~= butter_probe());
    assert(occurs_at(s, butter_probe(), 0));
}

/// The mark of a development kernel in `PATH`: `<name>/.popcorn`.
pub fn dev_kernel_marker(kernel_name: &str, sep: char) -> (r: String)
    ensures
        r@ == kernel_name@ + seq![sep] + ".popcorn"@,
{
    let mut r = kernel_name.to_owned();
    push_char(&mut r, sep);
    r.append(".popcorn");
    r
}

/// The mark of a production kernel in `PATH`: `<production dir>/<name>`.
pub fn prod_kernel_marker(prod_dir: &str, sep: char, kernel_name: &str) -> (r: String)
    ensures
        r@ == prod_dir@ + seq![sep] + kernel_name@,
{
    let mut r = prod_dir.to_owned();
    push_char(&mut r, sep);
    r.append(kernel_name);
    r
}

/// The message of a kernel that `PATH` does not hold.
pub fn not_installed_message(kernel_name: &str) -> (r: String)
    ensures
        r@ == "Kernel "@ + kernel_name@ + " not installed."@,
{
    let mut r = String::new();
    r.append("Kernel ");
    r.append(kernel_name);
    r.append(" not installed.");
    r
}

/// Whether a kernel may be removed: `PATH` must hold its mark, and, where
/// `guard_butter` asks for it, it must not be the path script itself.
pub fn check_removal(path_var: &str, marker: &str, kernel_name: &str, guard_butter: bool) -> (r:
    Result<(), String>)
    ensures
        r is Ok <==> contains(path_var@, marker@) && !(guard_butter && kernel_name@
            == "butter.sh"@),
        r matches Err(m) ==> m@ == (if !contains(path_var@, marker@) {
            "Kernel "@ + kernel_name@ + " not installed."@
        } else {
            "Not a kernel"@
        }),
{
    if !contains_str(path_var, marker) {
        Err(not_installed_message(kernel_name))
    } else if guard_butter && text_eq(kernel_name, "butter.sh") {
        let mut m = String::new();
        m.append("Not a kernel");
        Err(m)
    } else {
        Ok(())
    }
}

/// The message of a removed kernel.
pub fn removed_message(kernel_name: &str, is_dev: bool) -> (r: String)
    ensures
        r@ == "Removed"@ + (if is_dev {
            " dev"@
        } else {
            ""@
        }) + " kernel "@ + kernel_name@ + "!"@,
{
    let mut r = String::new();
    r.append("Removed");
    if is_dev {
        r.append(" dev");
    }
    proof {
        reveal_strlit("");
        assert(""@ =~= Seq::<char>::empty());
    }
    r.append(" kernel ");
    r.append(kernel_name);
    r.append("!");
    r
}

/// The message shown before a kernel is removed.
pub fn removing_message(kernel_name: &str) -> (r: String)
    ensures
        r@ == "Removing "@ + kernel_name@ + "..."@,
{
    let mut r = String::new();
    r.append("Removing ");
    r.append(kernel_name);
    r.append("...");
    r
}

/// The kernel that `remove` works on: the one named, or, when none was
/// named, the refusal that asks for one.
pub fn removal_target(kernel_name: Option<&str>) -> (r: Result<String, String>)
    ensures
        match kernel_name {
            Some(n) => r matches Ok(k) && k@ == n@,
            None => r matches Err(m) && m@ == "Please specify a kernel to remove."@,
        },
{
    match kernel_name {
        Some(n) => Ok(n.to_owned()),
        None => {
            let mut m = String::new();
            m.append("Please specify a kernel to remove.");
            Err(m)
        },
    }
}

/// A start-up file or path script without the lines that mention
/// `removed`, the others kept in order and joined by line ends.
pub fn without_lines_mentioning(contents: &str, removed: &str) -> (r: String)
    ensures
        r@ == join(lines(contents@).filter(lacks(removed@)), seq!['\n']),
{
    let ls = lines_str(contents);
    let kept = keep_lacking(&ls, removed);
    let mut nl = String::new();
    push_char(&mut nl, '\n');
    join_strs(&kept, nl.as_str())
}

/// `PATH` without the entries that mention `removed`, the others kept in
/// order and joined by the path separator.
pub fn without_path_entries(path_var: &str, removed: &str, path_sep: char) -> (r: String)
    ensures
        r@ == join(split(path_var@, seq![path_sep]).filter(lacks(removed@)), seq![path_sep]),
{
    let mut sep = String::new();
    push_char(&mut sep, path_sep);
    let entries = split_str(path_var, sep.as_str());
    let kept = keep_lacking(&entries, removed);
    join_strs(&kept, sep.as_str())
}

/// After a kernel's lines are removed from a file, the file no longer
/// mentions the kernel.
pub proof fn law_removed_lines_gone(contents: Seq<char>, removed: Seq<char>)
    requires
        removed.len() > 0,
        !removed.contains('\n'),
    ensures
        !contains(join(lines(contents).filter(lacks(removed)), seq!['\n']), removed),
{
    lemma_kept_join_lacks(lines(contents), removed, '\n');
}

/// After a kernel's entries are removed from `PATH`, `PATH` no longer
/// mentions the kernel.
pub proof fn law_removed_entries_gone(path_var: Seq<char>, removed: Seq<char>, path_sep: char)
    requires
        removed.len() > 0,
        !removed.contains(path_sep),
    ensures
        !contains(join(split(path_var, seq![path_sep]).filter(lacks(removed)), seq![path_sep]), removed),
{
    lemma_kept_join_lacks(split(path_var, seq![path_sep]), removed, path_sep);
}

} // verus!
