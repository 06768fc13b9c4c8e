use container_compose::assemble::{
    decimal_string, join2, join3, join4, join5, natural_string, push_flagged, push_text,
    push_texts,
};
use container_compose::text::{
    chars_of, column_of, has_char, has_name, has_text, is_space_char, same_text, split_text,
    trim_text,
};
use container_compose::volume::join_paths;

fn names(items: &[&str]) -> Vec<String> {
    items.iter().map(|s| s.to_string()).collect()
}

#[test]
fn white_space_is_what_std_says() {
    for n in 0u32..=0x10FFFF {
        if let Some(c) = char::from_u32(n) {
            assert_eq!(is_space_char(c), c.is_whitespace(), "U+{:04X}", n);
        }
    }
    assert!(!is_space_char('\u{200B}'));
    assert!(!is_space_char('\u{FEFF}'));
}

#[test]
fn chars_and_equality() {
    assert_eq!(chars_of("héllo"), vec!['h', 'é', 'l', 'l', 'o']);
    assert_eq!(chars_of(""), Vec::<char>::new());
    assert!(same_text("abc", "abc"));
    assert!(!same_text("abc", "abd"));
    assert!(!same_text("abc", "ab"));
    assert!(same_text("", ""));
}

#[test]
fn splitting_keeps_empty_pieces() {
    assert_eq!(split_text("a:b:c", ':'), names(&["a", "b", "c"]));
    assert_eq!(split_text("abc", ':'), names(&["abc"]));
    assert_eq!(split_text("", ':'), names(&[""]));
    assert_eq!(split_text(":", ':'), names(&["", ""]));
    assert_eq!(split_text("a::b:", ':'), names(&["a", "", "b", ""]));
    assert_eq!(split_text("é\nü", '\n'), names(&["é", "ü"]));
}

#[test]
fn searching() {
    assert!(has_text("hello world", "lo w"));
    assert!(has_text("hello", ""));
    assert!(has_text("", ""));
    assert!(!has_text("", "a"));
    assert!(!has_text("hello", "hellos"));
    assert!(has_text("aab", "ab"));
    assert!(has_char("a/b", '/'));
    assert!(!has_char("ab", '/'));
    assert!(has_text("abcabc", "cab"));
    assert!(!has_text("abcabc", "cb"));
}

#[test]
fn trimming() {
    assert_eq!(trim_text("  a b \n"), "a b");
    assert_eq!(trim_text("ab"), "ab");
    assert_eq!(trim_text(" \t\r\n"), "");
    assert_eq!(trim_text(""), "");
    assert_eq!(trim_text("\u{3000}x\u{2003}"), "x");
}

#[test]
fn columns() {
    assert_eq!(column_of("  web   nginx:1  up ", 0), "web");
    assert_eq!(column_of("  web   nginx:1  up ", 1), "nginx:1");
    assert_eq!(column_of("  web   nginx:1  up ", 2), "up");
    assert_eq!(column_of("  web   nginx:1  up ", 3), "");
    assert_eq!(column_of("", 0), "");
    assert_eq!(column_of("   ", 1), "");
}

#[test]
fn joining_paths() {
    assert_eq!(join_paths("/a", "b"), "/a/b");
    assert_eq!(join_paths("/a/", "b"), "/a/b");
    assert_eq!(join_paths("/a", "/b"), "/b");
    assert_eq!(join_paths("", "b"), "b");
    assert_eq!(join_paths("/a", ""), "/a/");
    assert_eq!(join_paths("/", "b"), "/b");
    assert_eq!(join_paths("", ""), "");
}

#[test]
fn joining_paths_agrees_with_std_on_unix() {
    let bases = ["", "/", "/a", "/a/", "rel", "a b/"];
    let rels = ["", "x", "/x", "x/y", "./x", "..", ".container-compose"];
    if std::path::MAIN_SEPARATOR == '/' {
        for base in bases {
            for rel in rels {
                let expected = std::path::Path::new(base).join(rel).to_string_lossy().to_string();
                assert_eq!(join_paths(base, rel), expected, "{:?} {:?}", base, rel);
            }
        }
    }
}

#[test]
fn lists_of_names() {
    let list = names(&["a", "bc"]);
    assert!(has_name(&list, "bc"));
    assert!(!has_name(&list, "b"));
    assert!(!has_name(&vec![], ""));
    let mut out = names(&["x"]);
    push_text(&mut out, "y");
    push_texts(&mut out, &list);
    push_flagged(&mut out, "-f", &list);
    push_flagged(&mut out, "-g", &vec![]);
    assert_eq!(out, names(&["x", "y", "a", "bc", "-f", "a", "-f", "bc"]));
}

#[test]
fn numbers_in_decimal() {
    assert_eq!(natural_string(0), "0");
    assert_eq!(natural_string(7), "7");
    assert_eq!(natural_string(10), "10");
    assert_eq!(natural_string(1203), "1203");
    assert_eq!(natural_string(u64::MAX), "18446744073709551615");
    assert_eq!(decimal_string(0), "0");
    assert_eq!(decimal_string(-1), "-1");
    assert_eq!(decimal_string(137), "137");
    assert_eq!(decimal_string(i32::MAX), "2147483647");
    assert_eq!(decimal_string(i32::MIN), "-2147483648");
}

#[test]
fn texts_in_a_row() {
    assert_eq!(join2("a", "b"), "ab");
    assert_eq!(join3("a", "", "c"), "ac");
    assert_eq!(join4("a", "b", "c", "d"), "abcd");
    assert_eq!(join5("a", "b", "c", "d", "e"), "abcde");
}

fn samples() -> Vec<&'static str> {
    vec![
        "",
        " ",
        "a",
        "  web   nginx:1  up ",
        "\tID\tIMAGE\r\nweb nginx\r\n\r\ndb  pg\n",
        "a:b:c",
        "::",
        "no such container: web not found",
        "é ü\u{a0}ß\u{3000}",
        "\n\n x \n",
        "line\rwith\rreturns",
        "trailing:",
        " lead and trail \u{2003}",
    ]
}

#[test]
fn splitting_agrees_with_std() {
    for s in samples() {
        for sep in [':', '\n', ' ', 'é'] {
            let expected: Vec<String> = s.split(sep).map(|p| p.to_string()).collect();
            assert_eq!(split_text(s, sep), expected, "{:?} {:?}", s, sep);
        }
    }
}

#[test]
fn trimming_agrees_with_std() {
    for s in samples() {
        assert_eq!(trim_text(s), s.trim(), "{:?}", s);
    }
}

#[test]
fn columns_agree_with_std() {
    for s in samples() {
        for k in 0..5 {
            let expected = s.split_whitespace().nth(k).unwrap_or("");
            assert_eq!(column_of(s, k), expected, "{:?} {}", s, k);
        }
    }
}

#[test]
fn searching_agrees_with_std() {
    for hay in samples() {
        for needle in ["", "a", "not found", "no such container", "\n", "web", "::", "é ü"] {
            assert_eq!(has_text(hay, needle), hay.contains(needle), "{:?} {:?}", hay, needle);
        }
        for c in [':', ' ', '/', 'é', '\n'] {
            assert_eq!(has_char(hay, c), hay.contains(c), "{:?} {:?}", hay, c);
        }
    }
}

#[test]
fn decimal_agrees_with_std() {
    for n in [0, 1, -1, 9, 10, 99, 100, -100, 255, 4096, i32::MAX, i32::MIN, -2147483647] {
        assert_eq!(decimal_string(n), n.to_string());
    }
    for n in [0u64, 5, 10, 11, 1000, 999999, u64::MAX] {
        assert_eq!(natural_string(n), n.to_string());
    }
}
