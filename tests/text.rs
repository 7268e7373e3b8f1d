use quot::text::{is_blank, is_whitespace, join_lines, split_lines, trim_start};

fn chars(s: &str) -> Vec<char> {
    s.chars().collect()
}

#[test]
fn lines_split_like_str_lines() {
    for s in ["line1\nline2\nline3", "", "\n", "a\n", "a\r\nb", "a\r", "a\n\nb\n\n", "\r\n\r\n", "x\ry\nz"] {
        let expected: Vec<Vec<char>> = s.lines().map(chars).collect();
        assert_eq!(split_lines(&chars(s)), expected, "for {:?}", s);
    }
    assert_eq!(split_lines(&chars("a\r\nb\n")), vec![chars("a"), chars("b")]);
}

#[test]
fn trim_start_drops_only_leading_whitespace() {
    assert_eq!(trim_start(&chars("  indented line  ")), chars("indented line  "));
    assert_eq!(trim_start(&chars("\u{2003}\t\u{a0}x y")), chars("x y"));
    assert_eq!(trim_start(&chars(" \n ")), Vec::<char>::new());
    assert_eq!(trim_start(&chars("")), Vec::<char>::new());
}

#[test]
fn whitespace_is_the_unicode_set() {
    for u in 0u32..0x3100 {
        if let Some(c) = char::from_u32(u) {
            assert_eq!(is_whitespace(c), c.is_whitespace(), "U+{:04X}", u);
        }
    }
    assert!(is_blank(&chars("")));
    assert!(is_blank(&chars(" \t\u{3000}")));
    assert!(!is_blank(&chars(" . ")));
}

#[test]
fn join_puts_one_line_feed_between_lines() {
    assert_eq!(join_lines(&vec![]), "");
    assert_eq!(join_lines(&vec![chars("a")]), "a");
    assert_eq!(join_lines(&vec![chars("a"), chars(""), chars("b")]), "a\n\nb");
}
