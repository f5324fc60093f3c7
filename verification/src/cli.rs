//! The command line: popcorn's subcommands and their options.

use vstd::prelude::*;

verus! {

/// Options of `build`: another output directory for the kernel.
#[derive(Debug, Clone, Default)]
pub struct BuildOptions {
    pub output: Option<String>,
}

/// Options of `dev`: the directory to watch for changes.
#[derive(Debug, Clone, Default)]
pub struct DevOptions {
    pub listen: Option<String>,
}

/// Options of `init`: overwrite an existing config; write a packed one.
#[derive(Debug, Clone, Copy, Default)]
pub struct InitOptions {
    pub force: bool,
    pub packed: bool,
}

/// Options of `install`: install the development kernels.
#[derive(Debug, Clone, Copy, Default)]
pub struct InstallOptions {
    pub dev: bool,
}

/// Options of `issue`: none.
#[derive(Debug, Clone, Copy, Default)]
pub struct IssueOptions {}

/// Options of `remove`: the kernel, and whether it is a development one.
#[derive(Debug, Clone, Default)]
pub struct RemoveOptions {
    pub kernel_name: Option<String>,
    pub dev: bool,
}

/// Options of a theatre install: the link, and whether it is a plain url.
#[derive(Debug, Clone, Default)]
pub struct TheatreOptions {
    pub kernel_link: Option<String>,
    pub url: bool,
}

/// Options of `update`: the kernel to update.
#[derive(Debug, Clone, Default)]
pub struct UpdateOptions {
    pub kernel: Option<String>,
}

/// The subcommands.
#[derive(Debug, Clone)]
pub enum Commands {
    Issue(IssueOptions),
    Init(InitOptions),
    Install(InstallOptions),
    Build(BuildOptions),
    Remove(RemoveOptions),
    Dev(DevOptions),
}

/// A parsed command line.
#[derive(Debug, Clone)]
pub struct CLI {
    pub commands: Commands,
    pub debug: bool,
}

} // verus!
