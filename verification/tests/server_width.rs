use server_status::server::width::{count_hidden, is_measurable};

fn hidden(line: &str, blank: &[char]) -> usize {
    let line: Vec<char> = line.chars().collect();
    let shown: Vec<bool> = line.iter().map(|c| *c >= ' ' && !blank.contains(c)).collect();
    count_hidden(&line, &shown)
}

#[test]
fn characters_of_escape_sequences_are_counted() {
    for (line, count) in [
        ("", 0),
        ("[31m", 0),
        ("a\u{1b}b[m", 0),
        ("\u{1b}[31mred\u{1b}[0m", 7),
        ("\u{1b}[m[m", 2),
        ("\u{1b}[x", 2),
        ("\u{1b}\u{1b}[m", 0),
        ("\u{1b}[1\u{1b}[m", 4),
    ] {
        assert_eq!(hidden(line, &[]), count, "{line:?}");
    }
}

#[test]
fn characters_that_take_no_column_are_not_counted() {
    assert_eq!(hidden("\u{1b}[a\u{301}m", &['\u{301}']), 3);
    assert_eq!(hidden("\u{1b}[m", &['[', 'm']), 0);
}

#[test]
fn lines_are_measured() {
    for line in ["", "abc", "\u{1b}", "\u{1b}[31mred\u{1b}[0m", "中", "\u{1b}[中m", "\u{1b}[\t\u{7f}"] {
        assert!(is_measurable(line), "{line:?}");
    }
    assert!(is_measurable("\u{1b}[\u{644}\u{627}"));
    assert!(!is_measurable("\u{1b}[\u{644}\u{627}\u{644}\u{627}"));
    assert!(is_measurable("\u{1b}[\u{644}\u{627}\u{644}\u{627}m中"));
}
