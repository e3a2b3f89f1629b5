use server_status::text::{
    before, chars_of, contains, join, lines, position_of, replace, same_text, split_char, split_once,
    starts_with, strip_prefix_or_self, text_of, trim,
};

fn texts(v: &[&str]) -> Vec<String> {
    v.iter().map(|s| s.to_string()).collect()
}

#[test]
fn text_is_taken_apart_and_put_together() {
    let v = chars_of("aä中");
    assert_eq!(v, vec!['a', 'ä', '中']);
    assert_eq!(text_of(&v, 1, 3), "ä中");
    assert_eq!(text_of(&v, 2, 2), "");
}

#[test]
fn texts_are_compared() {
    assert!(same_text("zfs", "zfs"));
    assert!(!same_text("zfs", "ZFS"));
    assert!(!same_text("zfs", "zfs2"));
    assert!(same_text("", ""));
}

#[test]
fn text_is_found() {
    assert!(contains("ID=debian", "debian"));
    assert!(!contains("ID=debia", "debian"));
    assert!(contains("abc", ""));
    assert!(contains("", ""));
    assert!(starts_with("zpool-tank", "zpool-"));
    assert!(!starts_with("a zpool-tank", "zpool-"));
    assert_eq!(position_of(&chars_of("a@_@b@_@"), &chars_of("@_@")), Some(1));
    assert_eq!(position_of(&chars_of("a@_b"), &chars_of("@_@")), None);
}

#[test]
fn prefix_is_stripped() {
    assert_eq!(strip_prefix_or_self("zpool-tank", "zpool-"), "tank");
    assert_eq!(strip_prefix_or_self("tank", "zpool-"), "tank");
}

#[test]
fn text_is_split_once() {
    assert_eq!(
        split_once("u@_@p@_@q", "@_@"),
        Some(("u".to_string(), "p@_@q".to_string()))
    );
    assert_eq!(split_once("@_@", "@_@"), Some((String::new(), String::new())));
    assert_eq!(split_once("up", "@_@"), None);
}

#[test]
fn text_is_split_at_each_character() {
    assert_eq!(split_char("a\tb\t\tc", '\t'), texts(&["a", "b", "", "c"]));
    assert_eq!(split_char("", '\t'), texts(&[""]));
    assert_eq!(split_char("\t", '\t'), texts(&["", ""]));
}

#[test]
fn lines_end_at_newlines() {
    assert_eq!(lines("a\nb\r\n\nc"), texts(&["a", "b", "", "c"]));
    assert_eq!(lines("a\n"), texts(&["a"]));
    assert_eq!(lines("a\r"), texts(&["a\r"]));
    assert_eq!(lines(""), texts(&[]));
    for s in ["a\nb", "\n", "\r\n", "x\r\r\ny\n\n", "ä\r\nö\r"] {
        let std: Vec<String> = s.lines().map(|l| l.to_string()).collect();
        assert_eq!(lines(s), std);
    }
}

#[test]
fn white_space_is_trimmed() {
    assert_eq!(trim("  a b\t\n"), "a b");
    assert_eq!(trim(" \u{3000}\u{a0}x\u{85}"), "x");
    assert_eq!(trim(" \n "), "");
    assert_eq!(trim("\u{200b}x"), "\u{200b}x");
}

#[test]
fn white_space_is_that_of_unicode() {
    for c in '\0'..='\u{ffff}' {
        let s = format!("{c}x");
        assert_eq!(trim(&s), s.trim());
    }
}

#[test]
fn text_is_replaced() {
    assert_eq!(replace("grpcs://h", "grpcs://", "https://"), "https://h");
    assert_eq!(replace("aaa", "aa", "b"), "ba");
    assert_eq!(replace("abc", "x", "y"), "abc");
}

#[test]
fn texts_are_joined() {
    assert_eq!(join(&texts(&["a", "", "b"]), "/"), "a//b");
    assert_eq!(join(&texts(&["a"]), "/"), "a");
    assert_eq!(join(&texts(&[]), "/"), "");
}

#[test]
fn texts_are_ordered() {
    assert!(before("a", "b"));
    assert!(before("a", "aa"));
    assert!(!before("aa", "a"));
    assert!(!before("a", "a"));
    assert!(before("Z", "a"));
    assert!(before("z", "中"));
}
