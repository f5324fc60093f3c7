use popcorn::theatre::{
    archive_ext, archive_path, homebrew_message, latest_tag, read_theatre_link, release_asset,
    release_url, strips_top_level, tags_url, unpack_dir, url_file_name, user_agent, yum_message,
    zip_extract_dir, Commit, LinkError, Root, TheatreSource,
};
use popcorn::util::calculate_hash;

#[test]
fn missing_and_malformed_links() {
    assert!(matches!(read_theatre_link(None, false), Err(LinkError::Missing)));
    assert!(matches!(read_theatre_link(Some("cowsay"), false), Err(LinkError::NotUserRepo)));
    assert_eq!(LinkError::Missing.message(), "Please specify a theatre.");
    assert_eq!(LinkError::NotUserRepo.message(), "Please follow the scheme of user/repo.");
}

#[test]
fn github_links() {
    match read_theatre_link(Some("user/repo@v1.2"), false) {
        Ok(TheatreSource::Github { repo, version, file_name }) => {
            assert_eq!(repo, "user/repo");
            assert_eq!(version, Some("v1.2".to_string()));
            assert_eq!(file_name, "user@repo");
        }
        _ => panic!("expected a github source"),
    }
    match read_theatre_link(Some("a/b/c"), false) {
        Ok(TheatreSource::Github { repo, version, file_name }) => {
            assert_eq!(repo, "a/b/c");
            assert_eq!(version, None);
            assert_eq!(file_name, "a@b@c");
            assert!(!file_name.contains('/'));
        }
        _ => panic!("expected a github source"),
    }
}

#[test]
fn package_manager_links() {
    assert!(matches!(read_theatre_link(Some("Brew/cowsay"), false), Ok(TheatreSource::Homebrew(p)) if p == "cowsay"));
    assert!(matches!(read_theatre_link(Some("homebrew/wget@2"), false), Ok(TheatreSource::Homebrew(p)) if p == "wget@2"));
    assert!(matches!(read_theatre_link(Some("yum/git"), false), Ok(TheatreSource::Yum(p)) if p == "git"));
    assert_eq!(homebrew_message("cowsay"), "Homebrew download cowsay");
    assert_eq!(yum_message("git"), "yum download git");
}

#[test]
fn url_links() {
    assert!(matches!(read_theatre_link(Some("https://x.y/k.tar.gz"), true), Ok(TheatreSource::Url(u)) if u == "https://x.y/k.tar.gz"));
    assert!(matches!(read_theatre_link(Some("plain"), true), Ok(TheatreSource::Url(u)) if u == "plain"));
    let url = "https://x.y/k.tar.gz".to_string();
    let h = calculate_hash(&url);
    assert_eq!(h, calculate_hash(&url.clone()));
    assert_eq!(url_file_name(h), format!("url-{}", h));
    assert_eq!(url_file_name(42), "url-42");
}

#[test]
fn download_urls_and_paths() {
    assert_eq!(tags_url("user/repo"), "https://api.github.com/repos/user/repo/tags");
    assert_eq!(
        release_url("user/repo", "v1", "linux.tar.gz"),
        "https://github.com/user/repo/releases/download/v1/kernel-linux.tar.gz"
    );
    assert_eq!(release_asset(true, false), "windows.zip");
    assert_eq!(release_asset(false, true), "mac.tar.gz");
    assert_eq!(release_asset(false, false), "linux.tar.gz");
    assert_eq!(archive_ext(true), ".zip");
    assert_eq!(archive_ext(false), ".tar.gz");
    assert_eq!(archive_path("/tmp/p", '/', "user@repo", ".tar.gz"), "/tmp/p/user@repo.tar.gz");
    assert_eq!(unpack_dir("/tmp/p", '/', "f"), "/tmp/p/f-download");
    assert_eq!(zip_extract_dir("/tmp/p", '/', "f"), "/tmp/p/url-f");
    assert!(strips_top_level(1));
    assert!(!strips_top_level(2));
    assert_eq!(user_agent("0.1.0"), "Popcorn 0.1.0");
}

#[test]
fn latest_tag_is_the_first() {
    let tags = vec![
        Root { name: "v2".to_string(), commit: Commit::default(), ..Default::default() },
        Root { name: "v1".to_string(), ..Default::default() },
    ];
    assert_eq!(latest_tag(&tags), "v2");
}
