use std::path::Path;
use jobs::paths::{is_plist_path, short_source};

#[test]
fn file_names_follow_path_components() {
    assert_eq!(short_source("/etc/crontab"), "crontab");
    assert_eq!(short_source("/etc/cron.d/"), "cron.d");
    assert_eq!(short_source("crontab -l (this user)"), "crontab -l (this user)");
    assert_eq!(short_source("/"), "/");
    assert_eq!(short_source("a/.."), "a/..");
    assert_eq!(short_source("a/b/."), "b");
}

#[test]
fn plist_extension() {
    assert!(is_plist_path("/Library/LaunchAgents/com.x.plist"));
    assert!(!is_plist_path("/Library/LaunchAgents/com.x.plist.bak"));
    assert!(!is_plist_path("/Library/LaunchAgents/.plist"));
    assert!(!is_plist_path("/Library/LaunchAgents/plist"));
}

use jobs::text::{
    chars_of, first_word_chars, fmt_i64, fmt_pad2, lines_of, parse_i64_chars, split_once_chars, splitn_chars,
    string_of, trim_chars, Sep,
};

fn parse(s: &str) -> Option<i64> {
    parse_i64_chars(&chars_of(s))
}

fn text(v: &Vec<char>) -> String {
    string_of(v)
}

#[test]
fn integers_parse_as_std_does() {
    assert_eq!(parse("42"), Some(42));
    assert_eq!(parse("+7"), Some(7));
    assert_eq!(parse("-0"), Some(0));
    assert_eq!(parse("-9223372036854775808"), Some(i64::MIN));
    assert_eq!(parse("9223372036854775807"), Some(i64::MAX));
    assert_eq!(parse("9223372036854775808"), None);
    assert_eq!(parse("-9223372036854775809"), None);
    assert_eq!(parse("99999999999999999999999"), None);
    assert_eq!(parse(""), None);
    assert_eq!(parse("-"), None);
    assert_eq!(parse("+"), None);
    assert_eq!(parse("1-5"), None);
    assert_eq!(parse(" 1"), None);
    assert_eq!(parse("*"), None);
    for s in ["0", "17", "-3", "+12", "x", "", "12a", "-"] {
        assert_eq!(parse(s), s.parse::<i64>().ok());
    }
}

#[test]
fn integers_print_as_std_does() {
    for n in [0i64, 5, 9, 10, 42, -1, -42, i64::MIN, i64::MAX] {
        assert_eq!(text(&fmt_i64(n)), format!("{}", n));
        assert_eq!(text(&fmt_pad2(n)), format!("{:02}", n));
    }
}

#[test]
fn trimming_and_splitting_follow_std() {
    let samples = ["", "  a b  ", "\u{a0}x\u{3000}", "\t\r\n", "a  b\tc d e f g", "one", " lead", "x=y z"];
    for s in samples {
        assert_eq!(text(&trim_chars(&chars_of(s))), s.trim());
        let parts: Vec<String> = splitn_chars(&chars_of(s), 6, Sep::Whitespace).iter().map(text).collect();
        let expected: Vec<String> = s.splitn(6, char::is_whitespace).map(|p| p.to_string()).collect();
        assert_eq!(parts, expected);
        let word = text(&first_word_chars(&chars_of(s)));
        assert_eq!(word, s.split_whitespace().next().unwrap_or(""));
    }
    for s in ["", "a", "a\n", "a\nb", "a\n\n", "\n", "a\r\nb\r\n"] {
        let ls: Vec<String> = lines_of(&chars_of(s)).iter().map(|l| text(l).trim().to_string()).collect();
        let expected: Vec<String> = s.lines().map(|l| l.trim().to_string()).collect();
        assert_eq!(ls, expected);
    }
    let (a, b) = split_once_chars(&chars_of("\"x\" => y => z"), "=>").unwrap();
    assert_eq!((text(&a), text(&b)), ("\"x\" ".to_string(), " y => z".to_string()));
    assert!(split_once_chars(&chars_of("no arrow"), "=>").is_none());
}

#[test]
fn path_questions_follow_std() {
    let samples = [
        "/etc/crontab", "/etc/cron.d/", "crontab -l (this user)", "/", "", ".", "..", "a/..", "a/b/.", "./x",
        "a//b", "/Library/LaunchAgents/com.x.plist", ".hidden", "/x/.plist", "dir/a.", "/a/b.tar.gz", "a/./b/",
    ];
    for s in samples {
        let name = Path::new(s).file_name().and_then(|f| f.to_str()).unwrap_or(s);
        assert_eq!(short_source(s), name, "file name of {:?}", s);
        let ext = Path::new(s).extension().and_then(|e| e.to_str());
        assert_eq!(is_plist_path(s), ext == Some("plist"), "extension of {:?}", s);
    }
}
