use git_cleanup::text::{decode, is_space, split_lines, trim};

fn std_lines(text: &str) -> Vec<String> {
    text.lines().map(|line| line.to_string()).collect()
}

#[test]
fn is_space_agrees_with_std_on_every_char() {
    let mut spaces = 0;
    for code in 0..=0x10FFFFu32 {
        if let Some(c) = char::from_u32(code) {
            assert_eq!(is_space(c), c.is_whitespace(), "U+{:04X}", code);
            if is_space(c) {
                spaces += 1;
            }
        }
    }
    assert_eq!(spaces, 25);
}

#[test]
fn is_space_on_named_characters() {
    assert!(is_space(' '));
    assert!(is_space('\t'));
    assert!(is_space('\n'));
    assert!(is_space('\r'));
    assert!(is_space('\u{0B}'));
    assert!(is_space('\u{0C}'));
    assert!(is_space('\u{85}'));
    assert!(is_space('\u{A0}'));
    assert!(is_space('\u{3000}'));
    assert!(!is_space('*'));
    assert!(!is_space('a'));
    assert!(!is_space('\u{200B}'));
    assert!(!is_space('\u{08}'));
    assert!(!is_space('\u{0E}'));
}

#[test]
fn trim_removes_white_space_at_both_ends_only() {
    assert_eq!(trim("  feature-a"), "feature-a");
    assert_eq!(trim("* main"), "* main");
    assert_eq!(trim("\t x y \r\n"), "x y");
    assert_eq!(trim(""), "");
    assert_eq!(trim(" \t\r\n"), "");
    assert_eq!(trim("a"), "a");
    assert_eq!(trim("\u{3000}fix\u{A0}"), "fix");
    assert_eq!(trim("\u{200B}fix"), "\u{200B}fix");
}

#[test]
fn trim_agrees_with_std() {
    let samples = [
        "",
        " ",
        "a",
        " a",
        "a ",
        " a b ",
        "\n\na\n\n",
        "\u{2003}wide\u{2009}",
        "  * main  ",
        "\u{1680}\u{2028}\u{2029}\u{202F}\u{205F}x\u{85}",
        "é ",
        " ✨ Clean! ",
    ];
    for sample in samples {
        assert_eq!(trim(sample), sample.trim(), "{:?}", sample);
    }
}

#[test]
fn split_lines_on_a_listing() {
    assert_eq!(
        split_lines("* main\n  feature-a\n  feature-b\n"),
        vec!["* main", "  feature-a", "  feature-b"]
    );
}

#[test]
fn split_lines_edge_cases() {
    assert_eq!(split_lines(""), Vec::<String>::new());
    assert_eq!(split_lines("\n"), vec![""]);
    assert_eq!(split_lines("a"), vec!["a"]);
    assert_eq!(split_lines("a\n"), vec!["a"]);
    assert_eq!(split_lines("a\n\nb"), vec!["a", "", "b"]);
    assert_eq!(split_lines("a\r\nb\r\n"), vec!["a", "b"]);
    assert_eq!(split_lines("a\rb\n"), vec!["a\rb"]);
    assert_eq!(split_lines("a\r"), vec!["a\r"]);
    assert_eq!(split_lines("a\r\r\n"), vec!["a\r"]);
    assert_eq!(split_lines("\r\n"), vec![""]);
    assert_eq!(split_lines("\n\n"), vec!["", ""]);
}

#[test]
fn split_lines_agrees_with_std() {
    let samples = [
        "",
        "\n",
        "\r",
        "\r\n",
        "one",
        "one\ntwo",
        "one\ntwo\n",
        "one\r\ntwo\r\n",
        "one\n\r\ntwo",
        "\none",
        "one\r",
        "one\r\r\n\rtwo\n\n",
        "  é\n✨\r\n",
    ];
    for sample in samples {
        assert_eq!(split_lines(sample), std_lines(sample), "{:?}", sample);
    }
}

#[test]
fn decode_reads_utf8() {
    assert_eq!(decode(Vec::new()), Some(String::new()));
    assert_eq!(decode(b"  main\n".to_vec()), Some("  main\n".to_string()));
    assert_eq!(decode(vec![0xC3, 0xA9]), Some("é".to_string()));
    assert_eq!(decode("✨ ok".as_bytes().to_vec()), Some("✨ ok".to_string()));
}

#[test]
fn decode_refuses_what_is_not_utf8() {
    assert_eq!(decode(vec![0xFF]), None);
    assert_eq!(decode(vec![b'a', 0xC3]), None);
    assert_eq!(decode(vec![0xC0, 0x80]), None);
    assert_eq!(decode(vec![0xED, 0xA0, 0x80]), None);
    assert_eq!(decode(vec![0xF4, 0x90, 0x80, 0x80]), None);
}
