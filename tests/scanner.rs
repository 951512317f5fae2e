use river_init::scan::{find_processes, ProcEntry};
use river_init::text::{chars_of, contains, is_numeric_name, parse_pid};

fn entry(name: &str, cmdline: Option<&str>) -> ProcEntry {
    ProcEntry { name: name.to_string(), is_dir: true, cmdline: cmdline.map(|c| c.to_string()) }
}

fn pids(found: &[river_init::scan::ProcessRecord]) -> Vec<u32> {
    found.iter().map(|r| r.pid).collect()
}

#[test]
fn substring_match_is_unqualified() {
    let entries = vec![
        entry("10", Some("waybar --config x")),
        entry("11", Some("other --waybar-flag")),
    ];
    let found = find_processes(&entries, "waybar");
    assert_eq!(pids(&found), vec![10, 11]);
    assert_eq!(found[0].cmdline, "waybar --config x");
    assert_eq!(found[1].cmdline, "other --waybar-flag");
}

#[test]
fn empty_table_gives_nothing() {
    let found = find_processes(&Vec::new(), "waybar");
    assert!(found.is_empty());
}

#[test]
fn only_matching_entries_are_returned() {
    let entries = vec![
        entry("1", Some("/sbin/init")),
        entry("42", Some("arti\0proxy\0")),
        entry("43", Some("v2ray\0run\0")),
        entry("44", Some("arti\0proxy\0--log\0")),
    ];
    assert_eq!(pids(&find_processes(&entries, "arti")), vec![42, 44]);
    assert_eq!(pids(&find_processes(&entries, "Arti")), Vec::<u32>::new());
}

#[test]
fn non_numeric_entries_are_excluded() {
    let entries = vec![
        entry("self", Some("waybar")),
        entry("12a", Some("waybar")),
        entry("acpi", Some("waybar")),
        entry("-5", Some("waybar")),
        entry("", Some("waybar")),
        entry("7", Some("waybar")),
    ];
    assert_eq!(pids(&find_processes(&entries, "waybar")), vec![7]);
}

#[test]
fn unreadable_and_plain_entries_are_skipped() {
    let mut file = entry("8", Some("waybar"));
    file.is_dir = false;
    let entries = vec![entry("5", None), file, entry("9", Some("waybar"))];
    assert_eq!(pids(&find_processes(&entries, "waybar")), vec![9]);
}

#[test]
fn out_of_range_identifiers_are_skipped() {
    let entries = vec![
        entry("0", Some("waybar")),
        entry("4294967296", Some("waybar")),
        entry("4294967295", Some("waybar")),
    ];
    assert_eq!(pids(&find_processes(&entries, "waybar")), vec![4294967295]);
}

#[test]
fn contains_edge_cases() {
    assert!(contains("abc", ""));
    assert!(contains("", ""));
    assert!(!contains("", "a"));
    assert!(!contains("ab", "abc"));
    assert!(contains("xxabc", "abc"));
    assert!(contains("abcxx", "abc"));
    assert!(!contains("abdabc", "abcd"));
    assert!(!contains("WAYBAR", "waybar"));
}

#[test]
fn numeric_names() {
    assert!(is_numeric_name("0"));
    assert!(is_numeric_name("123456"));
    assert!(!is_numeric_name(""));
    assert!(!is_numeric_name("12 "));
    assert!(!is_numeric_name("1.2"));
    assert!(!is_numeric_name("self"));
}

#[test]
fn pid_parsing() {
    assert_eq!(parse_pid("10"), Some(10));
    assert_eq!(parse_pid("007"), Some(7));
    assert_eq!(parse_pid("0"), None);
    assert_eq!(parse_pid("000"), None);
    assert_eq!(parse_pid(""), None);
    assert_eq!(parse_pid("4294967295"), Some(u32::MAX));
    assert_eq!(parse_pid("4294967296"), None);
    assert_eq!(parse_pid("99999999999999999999999"), None);
    assert_eq!(parse_pid("12x"), None);
}

#[test]
fn multibyte_text() {
    assert_eq!(chars_of("aé€"), vec!['a', 'é', '€']);
    assert!(contains("naïve --flag", "ïve"));
    assert!(!contains("naive", "ï"));
    assert!(!is_numeric_name("١٢"));
    assert_eq!(parse_pid("١٢"), None);
}
