use nixgen::bytes::{find, slice_of};
use nixgen::host::Table;
use nixgen::order::sorted_of;
use nixgen::text::{
    cat, contains, decimal_of, join_of, lines_of, lowercase_of, parse_u32, replace_in, split_on,
    split_once_on, starts_with, strip_prefix, trim_of, trim_start_of, unquoted_of, words_of,
};

#[test]
fn text_functions_agree_with_std() {
    for s in [
        "",
        " ",
        "a",
        "a b  c",
        "\u{2003}x\u{a0}",
        "x\r\ny\n\nz\r",
        "\n",
        "\r\n",
        "\"q\"\"",
        "+12",
        "a:b::c:",
        "\u{e9}t\u{e9} \u{1f980}",
    ] {
        assert_eq!(lines_of(s), s.lines().collect::<Vec<_>>());
        assert_eq!(split_on(s, ':'), s.split(':').collect::<Vec<_>>());
        assert_eq!(
            words_of(s),
            s.split_ascii_whitespace().collect::<Vec<_>>()
        );
        assert_eq!(trim_of(s), s.trim());
        assert_eq!(trim_start_of(s), s.trim_start());
        assert_eq!(unquoted_of(s), s.trim_matches('"'));
        assert_eq!(lowercase_of(s), s.to_ascii_lowercase());
        assert_eq!(parse_u32(s), s.parse::<u32>().ok());
        assert_eq!(replace_in(s, "b", "bb"), s.replace("b", "bb"));
        assert_eq!(contains(s, "t"), s.contains("t"));
        assert_eq!(starts_with(s, "a"), s.starts_with("a"));
        assert_eq!(
            strip_prefix(s, "a").as_deref(),
            s.strip_prefix("a")
        );
        assert_eq!(find(s, "t"), s.find("t"));
        assert_eq!(slice_of(s, 0, 2).as_deref(), s.get(0..2));
        assert_eq!(
            split_once_on(s, ':'),
            s.split_once(':').map(|(a, b)| (a.to_owned(), b.to_owned()))
        );
        assert_eq!(join_of(&split_on(s, ':'), ":"), s);
    }
}

#[test]
fn numbers_are_read_and_written() {
    assert_eq!(parse_u32("4294967295"), Some(4294967295));
    assert_eq!(parse_u32("4294967296"), None);
    assert_eq!(parse_u32("00000000000000000000007"), Some(7));
    assert_eq!(parse_u32("+"), None);
    assert_eq!(parse_u32("-1"), None);
    assert_eq!(parse_u32("++1"), None);
    assert_eq!(decimal_of(0), "0");
    assert_eq!(decimal_of(4294967295), "4294967295");
}

#[test]
fn lists_are_sorted_as_std_sorts_them() {
    let list: Vec<String> = ["b", "", "a", "\u{1f980}", "\u{ffff}", "ab", "a", "B"]
        .iter()
        .map(|s| (*s).to_owned())
        .collect();
    let mut wanted = list.clone();
    wanted.sort();
    assert_eq!(sorted_of(list), wanted);
}

#[test]
fn strings_are_put_together() {
    assert_eq!(cat("a", "b"), "ab");
    assert_eq!(join_of(&vec![], ","), "");
}

#[test]
fn later_entries_of_a_table_count() {
    let mut t: Table<bool> = Table::new();
    assert!(t.get("a").is_none());
    t.insert("a".to_owned(), false);
    t.insert("b".to_owned(), true);
    t.insert("a".to_owned(), true);
    assert_eq!(t.get("a"), Some(&true));
    assert_eq!(t.get("b"), Some(&true));
    assert!(t.get("c").is_none());
}
