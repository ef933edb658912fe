use cc_downloader::text::contains_chars;
use cc_downloader::text::push_decimal;
use cc_downloader::text::join_path_string;
use cc_downloader::text::parse_u64;
use cc_downloader::text::str_equal;
use cc_downloader::text::strip_leading_slash_str;

fn chars(s: &str) -> Vec<char> {
    s.chars().collect()
}

fn decimal(n: u64) -> String {
    let mut s = "#".to_string();
    push_decimal(&mut s, n);
    s
}

#[test]
fn decimals() {
    assert_eq!(decimal(0), "#0");
    assert_eq!(decimal(7), "#7");
    assert_eq!(decimal(10), "#10");
    assert_eq!(decimal(404), "#404");
    assert_eq!(decimal(u64::MAX), format!("#{}", u64::MAX));
}

#[test]
fn substring_search() {
    assert!(contains_chars(&chars("a/subset=warc/b"), &chars("subset=warc")));
    assert!(!contains_chars(&chars("a/subset=wa"), &chars("subset=warc")));
    assert!(contains_chars(&chars("abc"), &chars("")));
    assert!(contains_chars(&chars("abc"), &chars("abc")));
    assert!(!contains_chars(&chars(""), &chars("a")));
}

#[test]
fn path_joining_follows_pathbuf_push() {
    assert_eq!(join_path_string("out", "a.gz"), "out/a.gz");
    assert_eq!(join_path_string("out/", "a.gz"), "out/a.gz");
    assert_eq!(join_path_string("", "a.gz"), "a.gz");
    assert_eq!(join_path_string("out", "/abs/a.gz"), "/abs/a.gz");
    for (dir, name) in [("out", "a/b.gz"), ("out/", "x"), ("", "y"), ("d", "/z")] {
        let mut p = std::path::PathBuf::from(dir);
        p.push(name);
        assert_eq!(join_path_string(dir, name), p.to_str().unwrap());
    }
}

#[test]
fn leading_slash() {
    assert_eq!(strip_leading_slash_str("/a/b"), Some("a/b".to_string()));
    assert_eq!(strip_leading_slash_str("a/b"), None);
    assert_eq!(strip_leading_slash_str("/"), Some(String::new()));
}

#[test]
fn numbers_parse_as_std_parses_them() {
    for s in ["0", "42", "+42", "0042", "", "+", "-1", "4 2", "18446744073709551615", "18446744073709551616", "99999999999999999999999"] {
        assert_eq!(parse_u64(s), s.parse::<u64>().ok(), "{s:?}");
    }
}

#[test]
fn string_equality() {
    assert!(str_equal("cc-index-table", "cc-index-table"));
    assert!(!str_equal("cc-index", "cc-index-table"));
}
