//! The kernel's config file, `.kernelrc`: its fields, what a usable config
//! holds, the skeleton that `init` writes, and the systems a kernel runs on.

use vstd::prelude::*;

use crate::text::{last_piece, split, text_eq};

verus! {

/// The `advanced` part of a config.
#[derive(Debug, Default, Clone)]
pub struct AdvancedConfig {
    /// The systems the kernel runs on.
    pub os: Option<[String; 3]>,
    /// The suffix of the development command's name.
    pub dev_node: Option<String>,
}

/// A kernel's config, as read from `.kernelrc`.
#[derive(Debug, Default, Clone)]
pub struct Config {
    pub kernel_name: String,
    pub kernel_type: String,
    pub unpacked_husk: Option<String>,
    pub dev_cmd: String,
    pub seed_cmd: String,
    pub advanced: Option<AdvancedConfig>,
}

/// The config that stands for a `.kernelrc` that could not be parsed: every
/// text empty, an empty husk, no advanced part.
pub fn blank_config() -> (c: Config)
    ensures
        c.kernel_name@.len() == 0,
        c.kernel_type@.len() == 0,
        c.unpacked_husk matches Some(h) && h@.len() == 0,
        c.dev_cmd@.len() == 0,
        c.seed_cmd@.len() == 0,
        c.advanced is None,
{
    Config {
        kernel_name: String::new(),
        kernel_type: String::new(),
        unpacked_husk: Some(String::new()),
        dev_cmd: String::new(),
        seed_cmd: String::new(),
        advanced: None,
    }
}

/// A field that a usable config must not leave empty.
#[derive(Debug, Clone, Copy, PartialEq, Eq, Structural)]
pub enum MissingField {
    KernelName,
    KernelType,
    SeedCmd,
}

/// The first of `kernel_name`, `kernel_type` and `seed_cmd` that is empty,
/// if any.
pub open spec fn first_missing(c: Config) -> Option<MissingField> {
    if c.kernel_name@.len() == 0 {
        Some(MissingField::KernelName)
    } else if c.kernel_type@.len() == 0 {
        Some(MissingField::KernelType)
    } else if c.seed_cmd@.len() == 0 {
        Some(MissingField::SeedCmd)
    } else {
        None
    }
}

/// A usable config leaves none of `kernel_name`, `kernel_type` and
/// `seed_cmd` empty, and the field reported is the first empty one: an empty
/// `kernel_name` is reported whatever the other fields hold, `kernel_type`
/// only after a name, `seed_cmd` only after both.
pub proof fn law_missing_field_order(c: Config)
    ensures
        first_missing(c) is None <==> (c.kernel_name@.len() > 0 && c.kernel_type@.len() > 0
            && c.seed_cmd@.len() > 0),
        c.kernel_name@.len() == 0 ==> first_missing(c) == Some(MissingField::KernelName),
        first_missing(c) == Some(MissingField::KernelType) <==> (c.kernel_name@.len() > 0
            && c.kernel_type@.len() == 0),
        first_missing(c) == Some(MissingField::SeedCmd) <==> (c.kernel_name@.len() > 0
            && c.kernel_type@.len() > 0 && c.seed_cmd@.len() == 0),
{
}

/// The first field that the config leaves empty, checked in the order
/// `kernel_name`, `kernel_type`, `seed_cmd`.
pub fn missing_field(c: &Config) -> (r: Option<MissingField>)
    ensures
        r == first_missing(*c),
{
    if c.kernel_name.as_str().unicode_len() == 0 {
        Some(MissingField::KernelName)
    } else if c.kernel_type.as_str().unicode_len() == 0 {
        Some(MissingField::KernelType)
    } else if c.seed_cmd.as_str().unicode_len() == 0 {
        Some(MissingField::SeedCmd)
    } else {
        None
    }
}

impl MissingField {
    /// The field's name in the config file.
    pub open spec fn key(self) -> Seq<char> {
        match self {
            MissingField::KernelName => "kernel_name"@,
            MissingField::KernelType => "kernel_type"@,
            MissingField::SeedCmd => "seed_cmd"@,
        }
    }

    /// The message of the local commands (build, dev) for a missing field.
    pub fn include_message(&self) -> (r: String)
        ensures
            r@ == "Please include a "@ + self.key() + " in the config file."@,
    {
        let mut r = String::new();
        r.append("Please include a ");
        match self {
            MissingField::KernelName => r.append("kernel_name"),
            MissingField::KernelType => r.append("kernel_type"),
            MissingField::SeedCmd => r.append("seed_cmd"),
        }
        r.append(" in the config file.");
        r
    }

    /// The message of the remote commands (theatre, update) for a missing
    /// field.
    pub fn absent_message(&self) -> (r: String)
        ensures
            r@ == "No "@ + self.key() + " in the config file."@,
    {
        let mut r = String::new();
        r.append("No ");
        match self {
            MissingField::KernelName => r.append("kernel_name"),
            MissingField::KernelType => r.append("kernel_type"),
            MissingField::SeedCmd => r.append("seed_cmd"),
        }
        r.append(" in the config file.");
        r
    }
}

/// The systems a kernel is taken to run on: those listed under `advanced`,
/// or three empty names where none are listed.
pub open spec fn listed_os(c: Config, os: Seq<char>) -> bool {
    match c.advanced {
        Some(a) => match a.os {
            Some(list) => exists|i: int| 0 <= i < 3 && (#[trigger] list@[i])@ == os,
            None => os.len() == 0,
        },
        None => os.len() == 0,
    }
}

/// Where the config lists its systems, each of the three listed is
/// accepted, the first included, and a system is accepted exactly when it
/// is one of them.
pub proof fn law_listed_systems_accepted(c: Config, list: [String; 3])
    requires
        c.advanced matches Some(a) && a.os == Some(list),
    ensures
        listed_os(c, list@[0]@),
        listed_os(c, list@[1]@),
        listed_os(c, list@[2]@),
        forall|os: Seq<char>|
            #[trigger] listed_os(c, os) <==> (os == list@[0]@ || os == list@[1]@ || os
                == list@[2]@),
{
    assert(list@.len() == 3);
    assert(c.advanced->0.os->0 == list);
    assert(list@[0]@ == list@[0]@ && list@[1]@ == list@[1]@ && list@[2]@ == list@[2]@);
    assert forall|os: Seq<char>| #[trigger] listed_os(c, os) implies (os == list@[0]@ || os
        == list@[1]@ || os == list@[2]@) by {
        let i = choose|i: int| 0 <= i < 3 && (#[trigger] list@[i])@ == os;
        assert(i == 0 || i == 1 || i == 2);
    }
}

/// Whether the kernel runs on the system named `os`.
pub fn os_compatible(c: &Config, os: &str) -> (r: bool)
    ensures
        r == listed_os(*c, os@),
{
    match &c.advanced {
        Some(a) => match &a.os {
            Some(list) => {
                let mut i: usize = 0;
                while i < 3
                    invariant
                        c.advanced == Some(*a),
                        a.os == Some(*list),
                        i <= 3,
                        forall|j: int| 0 <= j < i ==> (#[trigger] list@[j])@ != os@,
                    decreases 3 - i,
                {
                    if text_eq(list[i].as_str(), os) {
                        assert(list@[i as int]@ == os@);
                        assert(c.advanced->0.os->0 == *list);
                        assert(exists|j: int| 0 <= j < 3 && (#[trigger] list@[j])@ == os@);
                        return true;
                    }
                    i = i + 1;
                }
                false
            },
            None => os.unicode_len() == 0,
        },
        None => os.unicode_len() == 0,
    }
}

/// The name of the system popcorn runs on, as configs list it.
pub fn host_os_name(windows: bool, mac: bool) -> (r: String)
    ensures
        r@ == (if windows {
            "windows"@
        } else if mac {
            "mac"@
        } else {
            "linux"@
        }),
{
    let mut r = String::new();
    if windows {
        r.append("windows");
    } else if mac {
        r.append("mac");
    } else {
        r.append("linux");
    }
    r
}

/// The name that `init` gives the kernel: the last part of the working
/// directory.
pub fn directory_name(cwd: &str, sep: char) -> (r: String)
    ensures
        r@ == split(cwd@, seq![sep]).last(),
{
    last_piece(cwd, sep)
}

/// Whether `init` writes the config: when there is none yet, or when asked
/// to overwrite it.
pub fn should_write_config(present: bool, force: bool) -> (r: bool)
    ensures
        r == (!present || force),
{
    !present || force
}

/// The skeleton config that `init` writes for a kernel named `name`: every
/// field of a usable config and the development suffix; the unpacked one
/// also names its husk and the systems it runs on, the packed one holds only
/// what it needs.
pub fn config_skeleton(name: &str, packed: bool) -> (r: String)
    ensures
        r@ == (if packed {
            "{\n\t\"kernel_name\": \""@ + name@
                + "\",\n\t\"kernel_type\": \"packed\",\n\t\"dev_cmd\": \"popcorn dev\",\n\t\"seed_cmd\": \"go build -o @dest\",\n\t\"advanced\": {\n\t\t\"dev_node\": \"-dev\"\n\t}\n}"@
        } else {
            "{\n\t\"kernel_name\": \""@ + name@
                + "\",\n\t\"kernel_type\": \"unpacked\",\n\t\"unpacked_husk\": \"python @local/popcorn.py @args\",\n\t\"dev_cmd\": \"popcorn dev\",\n\t\"seed_cmd\": \"cp -r * @dest\",\n\t\"advanced\": {\n\t\t\"os\": [\"mac\", \"windows\", \"linux\"],\n\t\t\"dev_node\":  \"-dev\"\n\t}\n}"@
        }),
{
    let mut r = String::new();
    r.append("{\n\t\"kernel_name\": \"");
    r.append(name);
    if packed {
        r.append(
            "\",\n\t\"kernel_type\": \"packed\",\n\t\"dev_cmd\": \"popcorn dev\",\n\t\"seed_cmd\": \"go build -o @dest\",\n\t\"advanced\": {\n\t\t\"dev_node\": \"-dev\"\n\t}\n}",
        );
    } else {
        r.append(
            "\",\n\t\"kernel_type\": \"unpacked\",\n\t\"unpacked_husk\": \"python @local/popcorn.py @args\",\n\t\"dev_cmd\": \"popcorn dev\",\n\t\"seed_cmd\": \"cp -r * @dest\",\n\t\"advanced\": {\n\t\t\"os\": [\"mac\", \"windows\", \"linux\"],\n\t\t\"dev_node\":  \"-dev\"\n\t}\n}",
        );
    }
    r
}

/// The name of the development command: the kernel's name followed by its
/// `dev_node`, when the config gives one.
pub fn dev_kernel_name(c: &Config) -> (r: String)
    ensures
        r@ == c.kernel_name@ + match c.advanced {
            Some(a) => match a.dev_node {
                Some(n) => n@,
                None => Seq::<char>::empty(),
            },
            None => Seq::<char>::empty(),
        },
{
    let mut r = c.kernel_name.clone();
    match &c.advanced {
        Some(a) => match &a.dev_node {
            Some(n) => r.append(n.as_str()),
            None => {},
        },
        None => {},
    }
    assert(r@ + Seq::<char>::empty() =~= r@);
    r
}

} // verus!
