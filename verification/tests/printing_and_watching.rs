use popcorn::print::Print;
use popcorn::watch::{check_change, dev_installed, listen_dir, route_event, ChangeCheck, EventRoute, WatchEvent};

fn tagged(line: &str, notation: &str, message: &str, color: u8) -> bool {
    line == format!("{}: {}", notation, message)
        || line == format!("\x1b[38;5;{}m{}\x1b[0m: {}", color, notation, message)
}

#[test]
fn printed_lines() {
    assert!(tagged(&Print::error("boom"), "[ERROR]", "boom", 1));
    assert!(tagged(&Print::success("ok"), "[SUCCESS]", "ok", 48));
    assert!(tagged(&Print::warn("hm"), "[WARN]", "hm", 10));
    assert!(tagged(&Print::info("fyi"), "[INFO]", "fyi", 4));
    let bold = Print::bold("title");
    assert!(bold == "title" || bold == "\x1b[1mtitle\x1b[0m");
    let event = Print::event("Received compile event.");
    assert!(event.ends_with("]: Received compile event.") || event.ends_with("]\x1b[0m: Received compile event."));
    let at = event.find("[EVENT @ ").unwrap() + "[EVENT @ ".len();
    let time: Vec<char> = event[at..at + 8].chars().collect();
    assert_eq!(time[2], ':');
    assert_eq!(time[5], ':');
    assert!([0, 1, 3, 4, 6, 7].iter().all(|&i| time[i].is_ascii_digit()));
}

#[test]
fn events_are_routed() {
    assert!(matches!(route_event(&WatchEvent::Rescan), EventRoute::Ignore));
    assert!(matches!(route_event(&WatchEvent::NoticeWrite("a".into())), EventRoute::Ignore));
    assert!(matches!(route_event(&WatchEvent::Write("src/a.py".into())), EventRoute::Inspect(p) if p == "src/a.py"));
    assert!(matches!(route_event(&WatchEvent::Rename("a".into(), "b".into())), EventRoute::Inspect(p) if p == "b"));
    assert!(matches!(route_event(&WatchEvent::Error("io".into(), "Some(\"x\")".into())), EventRoute::Report(m) if m == "io with path Some(\"x\")"));
}

#[test]
fn changes_are_checked() {
    assert_eq!(check_change(true, "./src"), ChangeCheck::Skip);
    assert_eq!(check_change(false, "./.kernelrc"), ChangeCheck::ConfigChanged);
    assert_eq!(check_change(false, ".//.kernelrc"), ChangeCheck::ConfigChanged);
    assert_eq!(check_change(false, "./main.py"), ChangeCheck::AskGit);
    assert_eq!(listen_dir(None), ".");
    assert_eq!(listen_dir(Some("./foo")), "./foo");
    assert!(dev_installed("/bin:/w/.popcorn", "/w/.popcorn"));
    assert!(!dev_installed("/bin", "/w/.popcorn"));
}
