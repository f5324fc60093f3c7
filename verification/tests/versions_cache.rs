use popcorn::checksum::{checksum_of, checksum_of_bytes, digest_of_bytes, hex_string};
use popcorn::versions::{
    has_version_entry, lookup_version, needs_update, record_version, record_version_is_safe,
    VersionsEdit,
};

fn digest(text: &str) -> [u8; 16] {
    md5::compute(text).0
}

#[test]
fn checksum_is_lowercase_md5_hex() {
    assert_eq!(checksum_of(""), "d41d8cd98f00b204e9800998ecf8427e");
    assert_eq!(checksum_of("abc"), "900150983cd24fb0d6963f7d28e17f72");
    assert_eq!(checksum_of("abc"), format!("{:?}", md5::compute("abc")));
    assert_eq!(hex_string(&[0x00, 0x0f, 0xa0, 0xff]), "000fa0ff");
    assert_eq!(checksum_of_bytes(&[0xff, 0x00]), format!("{:x}", md5::compute([0xffu8, 0x00])));
    assert_eq!(digest_of_bytes(b"abc"), md5::compute(b"abc").0);
    assert_eq!(checksum_of("a longer text for the digest").len(), 32);
    assert_eq!(checksum_of_bytes(&[]).len(), 32);
}

#[test]
fn a_new_kernel_is_appended_and_read_back() {
    let d = digest("first");
    let hex = format!("{:x}", md5::compute("first"));
    let contents = "other 0123 https://x/other\n";
    assert!(record_version_is_safe(contents, "cowsay", &d));
    let line = match record_version(contents, "cowsay", &d, "https://x/cowsay") {
        VersionsEdit::Append(line) => line,
        _ => panic!("expected an appended line"),
    };
    assert_eq!(line, format!("cowsay {} https://x/cowsay\n", hex));
    let all = format!("{}{}", contents, line);
    assert!(has_version_entry(&all, "cowsay"));
    assert_eq!(lookup_version(&all, "cowsay"), (hex.clone(), "https://x/cowsay".to_string()));
    // recording the same version again changes nothing
    assert!(matches!(record_version(&all, "cowsay", &d, "https://x/cowsay"), VersionsEdit::Unchanged));
}

#[test]
fn a_known_kernel_gets_its_checksum_rewritten() {
    let old = format!("{:x}", md5::compute("old"));
    let contents = format!("a 11 u1\ncowsay {} https://x/cowsay\nz 22 u2\n", old);
    let d = digest("new");
    let hex = format!("{:x}", md5::compute("new"));
    assert!(record_version_is_safe(&contents, "cowsay", &d));
    let all = match record_version(&contents, "cowsay", &d, "https://ignored") {
        VersionsEdit::Rewrite(all) => all,
        _ => panic!("expected a rewrite"),
    };
    assert_eq!(all, format!("a 11 u1\ncowsay {} https://x/cowsay\nz 22 u2\n", hex));
    assert_eq!(lookup_version(&all, "cowsay"), (hex, "https://x/cowsay".to_string()));
    // a second identical recording changes nothing
    assert!(matches!(record_version(&all, "cowsay", &d, "https://ignored"), VersionsEdit::Unchanged));
}

#[test]
fn rewrite_keeps_only_text_up_to_a_repeated_checksum() {
    // the old checksum occurs again further on: the text after that
    // second occurrence is not kept
    let contents = "k old u\nj old v\n";
    let d = digest("n");
    let hex = format!("{:x}", md5::compute("n"));
    match record_version(contents, "k", &d, "w") {
        VersionsEdit::Rewrite(all) => assert_eq!(all, format!("k {} u\nj ", hex)),
        _ => panic!("expected a rewrite"),
    }
}

#[test]
fn rewrite_without_space_is_unsafe() {
    let d = digest("n");
    assert!(!record_version_is_safe("kernel", "kernel", &d));
    assert!(!has_version_entry("kernel", "kernel"));
    assert!(!has_version_entry("nothing here", "kernel"));
}

#[test]
fn update_is_needed_when_checksums_differ() {
    assert!(needs_update("aa", "bb"));
    assert!(!needs_update("aa", "aa"));
}
