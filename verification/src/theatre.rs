//! Kernels from a theatre: how a link `user/repo[@version]` (or a plain url)
//! is read, the urls that are fetched, and where downloads are unpacked.

use vstd::prelude::*;

use crate::text::{
    contains, contains_str, decimal, decimal_string, law_replace_removes_char, lemma_find,
    lemma_split_nonempty, lowercase_is, push_char, replace, replace_str, split, split_str,
    unicode_lowercase,
};

verus! {

/// A commit of a tag, as the GitHub tags api lists it.
#[derive(Default, Debug, Clone, PartialEq)]
pub struct Commit {
    pub sha: String,
    pub url: String,
}

/// A tag, as the GitHub tags api lists it.
#[derive(Default, Debug, Clone, PartialEq)]
pub struct Root {
    pub name: String,
    pub zipball_url: String,
    pub tarball_url: String,
    pub commit: Commit,
    pub node_id: String,
}

/// Where a kernel is fetched from.
pub enum TheatreSource {
    /// Straight from this url.
    Url(String),
    /// A Homebrew package of this name.
    Homebrew(String),
    /// A yum package of this name.
    Yum(String),
    /// The releases of a GitHub repository `user/repo`, at a version when
    /// the link names one, stored under a file name without `/`.
    Github { repo: String, version: Option<String>, file_name: String },
}

/// Why a link is refused.
#[derive(Debug, Clone, Copy, PartialEq, Eq, Structural)]
pub enum LinkError {
    /// No link was given.
    Missing,
    /// A theatre link lacks the `/` of `user/repo`.
    NotUserRepo,
}

impl LinkError {
    /// The message shown for the refusal.
    pub fn message(&self) -> (r: String)
        ensures
            r@ == match self {
                LinkError::Missing => "Please specify a theatre."@,
                LinkError::NotUserRepo => "Please follow the scheme of user/repo."@,
            },
    {
        let mut r = String::new();
        match self {
            LinkError::Missing => r.append("Please specify a theatre."),
            LinkError::NotUserRepo => r.append("Please follow the scheme of user/repo."),
        }
        r
    }
}

/// The version named after `@` in a link, if any.
pub open spec fn link_version(link: Seq<char>) -> Option<Seq<char>> {
    if contains(link, "@"@) {
        Some(split(link, "@"@)[1])
    } else {
        None
    }
}

/// The repository named by a link: what precedes its first `@`.
pub open spec fn link_repo(link: Seq<char>) -> Seq<char> {
    if contains(link, "@"@) {
        split(link, "@"@)[0]
    } else {
        link
    }
}

/// The file name under which a repository's download is kept: every `/`
/// replaced by `@`.
pub open spec fn link_file_name(link: Seq<char>) -> Seq<char> {
    replace(link_repo(link), "/"@, "@"@)
}

/// The host part of a link (before its first `/`) and the package part
/// (between its first and second `/`).
pub open spec fn link_host(link: Seq<char>) -> Seq<char> {
    split(link, "/"@)[0]
}

pub open spec fn link_package(link: Seq<char>) -> Seq<char> {
    split(link, "/"@)[1]
}

/// What a theatre link asks for.
pub open spec fn link_source_is(link: Seq<char>, url: bool, r: TheatreSource) -> bool {
    if url {
        r matches TheatreSource::Url(u) && u@ == link
    } else if unicode_lowercase(link_host(link)) == "homebrew"@ || unicode_lowercase(link_host(link))
        == "brew"@ {
        r matches TheatreSource::Homebrew(p) && p@ == link_package(link)
    } else if unicode_lowercase(link_host(link)) == "yum"@ {
        r matches TheatreSource::Yum(p) && p@ == link_package(link)
    } else {
        r matches TheatreSource::Github { repo, version, file_name } && repo@ == link_repo(link)
            && file_name@ == link_file_name(link) && match version {
            Some(v) => link_version(link) == Some(v@),
            None => link_version(link) is None,
        }
    }
}

/// A link whose part before the first `/` reads `homebrew` or `brew` in
/// lowercase names a Homebrew package, whatever the letter case it is
/// written in, and one whose part reads `yum` names a yum package: the
/// package is the part after the first `/`.
pub proof fn law_package_hosts_in_any_case(link: Seq<char>, r: TheatreSource)
    requires
        link_source_is(link, false, r),
    ensures
        unicode_lowercase(link_host(link)) == "homebrew"@ ==> (r matches TheatreSource::Homebrew(p)
            && p@ == split(link, "/"@)[1]),
        unicode_lowercase(link_host(link)) == "brew"@ ==> (r matches TheatreSource::Homebrew(p)
            && p@ == split(link, "/"@)[1]),
        unicode_lowercase(link_host(link)) == "yum"@ ==> (r matches TheatreSource::Yum(p) && p@
            == split(link, "/"@)[1]),
{
    reveal_strlit("homebrew");
    reveal_strlit("brew");
    reveal_strlit("yum");
    assert("yum"@.len() != "homebrew"@.len() && "yum"@.len() != "brew"@.len());
}

/// Two links that differ only in the letter case of their part before the
/// first `/`, where that part is a package manager's name, ask for the same
/// package.
pub proof fn law_host_case_does_not_matter(a: Seq<char>, b: Seq<char>, ra: TheatreSource, rb: TheatreSource)
    requires
        link_source_is(a, false, ra),
        link_source_is(b, false, rb),
        unicode_lowercase(link_host(a)) == unicode_lowercase(link_host(b)),
        unicode_lowercase(link_host(a)) == "homebrew"@ || unicode_lowercase(link_host(a)) == "brew"@
            || unicode_lowercase(link_host(a)) == "yum"@,
        split(a, "/"@)[1] == split(b, "/"@)[1],
    ensures
        ra == rb || (match (ra, rb) {
            (TheatreSource::Homebrew(p), TheatreSource::Homebrew(q)) => p@ == q@,
            (TheatreSource::Yum(p), TheatreSource::Yum(q)) => p@ == q@,
            _ => false,
        }),
{
    law_package_hosts_in_any_case(a, ra);
    law_package_hosts_in_any_case(b, rb);
}

/// A pattern that occurs cuts the text in at least two pieces.
proof fn lemma_split_two(s: Seq<char>, pat: Seq<char>)
    requires
        pat.len() > 0,
        contains(s, pat),
    ensures
        split(s, pat).len() >= 2,
{
    lemma_find(s, pat);
    lemma_split_nonempty(s.skip(crate::text::find(s, pat) + pat.len()), pat);
}

/// Reads a theatre link: none is refused; without `--url` it must hold a
/// `/`; `homebrew/`, `brew/` and `yum/` links (in any case) name a package
/// of that manager; others name a GitHub repository, with an optional
/// `@version`.
pub fn read_theatre_link(link: Option<&str>, url: bool) -> (r: Result<TheatreSource, LinkError>)
    ensures
        match link {
            None => r == Err::<TheatreSource, LinkError>(LinkError::Missing),
            Some(l) => if !url && !contains(l@, "/"@) {
                r == Err::<TheatreSource, LinkError>(LinkError::NotUserRepo)
            } else {
                r matches Ok(s) && link_source_is(l@, url, s)
            },
        },
{
    let l = match link {
        None => return Err(LinkError::Missing),
        Some(l) => l,
    };
    proof {
        reveal_strlit("/");
        reveal_strlit("@");
    }
    if !url && !contains_str(l, "/") {
        return Err(LinkError::NotUserRepo);
    }
    if url {
        return Ok(TheatreSource::Url(l.to_owned()));
    }
    proof {
        lemma_split_two(l@, "/"@);
    }
    let parts = split_str(l, "/");
    let host = parts[0].as_str();
    let package = parts[1].as_str();
    if lowercase_is(host, "homebrew") || lowercase_is(host, "brew") {
        return Ok(TheatreSource::Homebrew(package.to_owned()));
    } else if lowercase_is(host, "yum") {
        return Ok(TheatreSource::Yum(package.to_owned()));
    }
    let mut version: Option<String> = None;
    let mut repo = l.to_owned();
    if contains_str(l, "@") {
        proof {
            lemma_split_two(l@, "@"@);
        }
        let at_parts = split_str(l, "@");
        version = Some(at_parts[1].clone());
        repo = at_parts[0].clone();
        assert(at_parts.deep_view()[1] == at_parts@[1]@);
        assert(at_parts.deep_view()[0] == at_parts@[0]@);
    }
    let file_name = replace_str(repo.as_str(), "/", "@");
    Ok(TheatreSource::Github { repo, version, file_name })
}

/// The file name of a repository's download holds no `/`.
pub proof fn law_file_name_has_no_slash(link: Seq<char>)
    ensures
        !link_file_name(link).contains('/'),
{
    reveal_strlit("/");
    reveal_strlit("@");
    assert("/"@ =~= seq!['/']);
    assert(!"@"@.contains('/')) by {
        assert("@"@ =~= seq!['@']);
    }
    law_replace_removes_char(link_repo(link), '/', "@"@);
}

/// The api url that lists a repository's tags.
pub fn tags_url(repo: &str) -> (r: String)
    ensures
        r@ == "https://api.github.com/repos/"@ + repo@ + "/tags"@,
{
    let mut r = String::new();
    r.append("https://api.github.com/repos/");
    r.append(repo);
    r.append("/tags");
    r
}

/// The version installed when the link names none: the first tag listed.
pub fn latest_tag(tags: &Vec<Root>) -> (r: String)
    requires
        tags@.len() > 0,
    ensures
        r@ == tags@[0].name@,
{
    tags[0].name.clone()
}

/// The user agent sent to the GitHub api.
pub fn user_agent(version: &str) -> (r: String)
    ensures
        r@ == "Popcorn "@ + version@,
{
    let mut r = String::new();
    r.append("Popcorn ");
    r.append(version);
    r
}

/// The release asset for the host system.
pub fn release_asset(windows: bool, mac: bool) -> (r: String)
    ensures
        r@ == (if windows {
            "windows.zip"@
        } else if mac {
            "mac.tar.gz"@
        } else {
            "linux.tar.gz"@
        }),
{
    let mut r = String::new();
    if windows {
        r.append("windows.zip");
    } else if mac {
        r.append("mac.tar.gz");
    } else {
        r.append("linux.tar.gz");
    }
    r
}

/// The url of a release asset of a repository.
pub fn release_url(repo: &str, version: &str, asset: &str) -> (r: String)
    ensures
        r@ == "https://github.com/"@ + repo@ + "/releases/download/"@ + version@ + "/kernel-"@
            + asset@,
{
    let mut r = String::new();
    r.append("https://github.com/");
    r.append(repo);
    r.append("/releases/download/");
    r.append(version);
    r.append("/kernel-");
    r.append(asset);
    r
}

/// The extension of a downloaded archive.
pub fn archive_ext(windows: bool) -> (r: String)
    ensures
        r@ == (if windows {
            ".zip"@
        } else {
            ".tar.gz"@
        }),
{
    let mut r = String::new();
    if windows {
        r.append(".zip");
    } else {
        r.append(".tar.gz");
    }
    r
}

/// Where a download is saved: `<tmp>/<file name><ext>`.
pub fn archive_path(tmp: &str, sep: char, file_name: &str, ext: &str) -> (r: String)
    ensures
        r@ == tmp@ + seq![sep] + file_name@ + ext@,
{
    let mut r = tmp.to_owned();
    push_char(&mut r, sep);
    r.append(file_name);
    r.append(ext);
    r
}

/// Where a tarball is unpacked first: `<tmp>/<file name>-download`.
pub fn unpack_dir(tmp: &str, sep: char, file_name: &str) -> (r: String)
    ensures
        r@ == tmp@ + seq![sep] + file_name@ + "-download"@,
{
    let mut r = tmp.to_owned();
    push_char(&mut r, sep);
    r.append(file_name);
    r.append("-download");
    r
}

/// Where a zip archive is unpacked: `<tmp>/url-<file name>`.
pub fn zip_extract_dir(tmp: &str, sep: char, file_name: &str) -> (r: String)
    ensures
        r@ == tmp@ + seq![sep] + "url-"@ + file_name@,
{
    let mut r = tmp.to_owned();
    push_char(&mut r, sep);
    r.append("url-");
    r.append(file_name);
    r
}

/// Whether an unpacked tarball's single top-level entry is taken as the
/// kernel's directory.
pub fn strips_top_level(entries: usize) -> (r: bool)
    ensures
        r == (entries == 1),
{
    entries == 1
}

/// The file name of a download from a plain url: `url-` and the url's hash.
pub fn url_file_name(hash: u64) -> (r: String)
    ensures
        r@ == "url-"@ + decimal(hash as nat),
{
    let digits = decimal_string(hash);
    let mut r = String::new();
    r.append("url-");
    r.append(digits.as_str());
    r
}

/// The message for a Homebrew package.
pub fn homebrew_message(package: &str) -> (r: String)
    ensures
        r@ == "Homebrew download "@ + package@,
{
    let mut r = String::new();
    r.append("Homebrew download ");
    r.append(package);
    r
}

/// The message for a yum package.
pub fn yum_message(package: &str) -> (r: String)
    ensures
        r@ == "yum download "@ + package@,
{
    let mut r = String::new();
    r.append("yum download ");
    r.append(package);
    r
}

} // verus!
