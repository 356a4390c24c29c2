use syncstream::text::{
    append_chars, chars_of, copy_range, decimal_of, find_char, is_whitespace, join, parse_u64,
    same_chars, split, starts_with, string_of, trim, trimmed_char,
};

fn chars(s: &str) -> Vec<char> {
    s.chars().collect()
}

fn text(v: &Vec<char>) -> String {
    v.iter().collect()
}

#[test]
fn strings_and_characters_convert_both_ways() {
    assert_eq!(chars_of(""), Vec::<char>::new());
    assert_eq!(chars_of("aÄ日"), vec!['a', 'Ä', '日']);
    assert_eq!(string_of(&vec!['a', 'Ä', '日']), "aÄ日");
    assert_eq!(string_of(&Vec::new()), "");
    assert_eq!(string_of(&chars_of("Track 3 – Ünïcödé")), "Track 3 – Ünïcödé");
}

#[test]
fn ranges_and_appending() {
    let s = chars("hello");
    assert_eq!(copy_range(&s, 1, 3), chars("el"));
    assert_eq!(copy_range(&s, 0, 5), s);
    assert_eq!(copy_range(&s, 5, 5), Vec::<char>::new());
    let mut head = chars("ab");
    append_chars(&mut head, &chars("cd"));
    assert_eq!(head, chars("abcd"));
    append_chars(&mut head, &Vec::new());
    assert_eq!(head, chars("abcd"));
}

#[test]
fn whitespace_is_what_std_calls_whitespace() {
    let mut code: u32 = 0;
    while code <= 0x10_FFFF {
        if let Some(c) = char::from_u32(code) {
            assert_eq!(is_whitespace(c), c.is_whitespace(), "U+{:04X}", code);
        }
        code += 1;
    }
}

#[test]
fn trim_drops_whitespace_at_both_ends_only() {
    for s in [
        "",
        " ",
        "\n\t ",
        "a",
        " a",
        "a ",
        "  a b  ",
        "\u{a0}x\u{2003}",
        "\u{3000}日本\u{85}",
        "a \u{200b} ",
        "\r\n42\r\n",
    ] {
        assert_eq!(text(&trim(&chars(s))), s.trim(), "{:?}", s);
    }
}

#[test]
fn trimmed_single_character() {
    assert_eq!(trimmed_char("p"), Some('p'));
    assert_eq!(trimmed_char("  p\n"), Some('p'));
    assert_eq!(trimmed_char(""), None);
    assert_eq!(trimmed_char("  "), None);
    assert_eq!(trimmed_char("pn"), None);
    assert_eq!(trimmed_char("p n"), None);
    assert_eq!(trimmed_char("日"), Some('日'));
}

#[test]
fn numbers_parse_as_std_parses_them() {
    for s in [
        "0",
        "7",
        "007",
        "+7",
        "+",
        "",
        "-7",
        "++7",
        "7+",
        " 7",
        "7 ",
        "1234567890",
        "18446744073709551615",
        "18446744073709551616",
        "018446744073709551615",
        "99999999999999999999999999",
        "+18446744073709551615",
        "12a",
        "a12",
        "1_000",
        "１２",
        "0x10",
        "1.5",
    ] {
        assert_eq!(parse_u64(&chars(s)), s.parse::<u64>().ok(), "{:?}", s);
    }
}

#[test]
fn numbers_are_written_in_decimal() {
    for n in [
        0u64,
        1,
        9,
        10,
        11,
        99,
        100,
        101,
        12345,
        1_700_000_000_000,
        u64::MAX - 1,
        u64::MAX,
    ] {
        assert_eq!(text(&decimal_of(n)), n.to_string());
        assert_eq!(parse_u64(&decimal_of(n)), Some(n));
    }
}

#[test]
fn first_position_of_a_character() {
    assert_eq!(find_char(&chars(""), ':'), 0);
    assert_eq!(find_char(&chars("abc"), ':'), 3);
    assert_eq!(find_char(&chars(":abc"), ':'), 0);
    assert_eq!(find_char(&chars("a:b:c"), ':'), 1);
    assert_eq!(find_char(&chars("日本:x"), ':'), 2);
}

#[test]
fn split_gives_the_pieces_between_separators() {
    for s in ["", ",", "a", "a,b", "a,,b", ",a", "a,", ",,", "Ä,日本,Track 3", "a:b,c"] {
        let pieces: Vec<String> = split(&chars(s), ',').iter().map(text).collect();
        let expected: Vec<String> = s.split(',').map(String::from).collect();
        assert_eq!(pieces, expected, "{:?}", s);
    }
}

#[test]
fn join_puts_the_separator_between_neighbours() {
    assert_eq!(text(&join(&Vec::new(), ',')), "");
    assert_eq!(text(&join(&vec![chars("a")], ',')), "a");
    assert_eq!(text(&join(&vec![chars("")], ',')), "");
    assert_eq!(text(&join(&vec![chars("a"), chars("b")], ',')), "a,b");
    assert_eq!(
        text(&join(&vec![chars("Ä"), chars("日本"), chars("Track 3")], ',')),
        "Ä,日本,Track 3"
    );
    assert_eq!(text(&join(&vec![chars(""), chars(""), chars("")], ',')), ",,");
}

#[test]
fn split_undoes_join() {
    let lists: Vec<Vec<&str>> = vec![
        vec!["a"],
        vec!["a", "b"],
        vec!["Ä", "日本", "Track 3"],
        vec!["", "x", ""],
        vec!["", ""],
        vec!["one:two", "three four"],
    ];
    for list in lists {
        let pieces: Vec<Vec<char>> = list.iter().map(|s| chars(s)).collect();
        assert_eq!(split(&join(&pieces, ','), ','), pieces);
    }
}

#[test]
fn prefixes_and_equality() {
    assert!(starts_with(&chars("PING,1"), &chars("PING")));
    assert!(starts_with(&chars("PING"), &chars("PING")));
    assert!(starts_with(&chars("PING"), &chars("")));
    assert!(!starts_with(&chars("PIN"), &chars("PING")));
    assert!(!starts_with(&chars("pING,1"), &chars("PING")));
    assert!(!starts_with(&chars(""), &chars("P")));
    assert!(same_chars(&chars("ACK"), &chars("ACK")));
    assert!(same_chars(&chars(""), &chars("")));
    assert!(!same_chars(&chars("ACK"), &chars("ACK ")));
    assert!(!same_chars(&chars("ACK"), &chars("ACk")));
}
