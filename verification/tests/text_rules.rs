use game_scanner::text::{
    chars_eq, contains_chars, ends_with_chars, find_char, find_char_from, is_alnum_char,
    is_hex_char, is_space_char, joined, lower_char, lower_chars, occurs_at_chars, starts_with_chars,
    str_eq, subvec, to_chars, to_string, trim_chars, upper_char, upper_chars,
};

fn chars(s: &str) -> Vec<char> {
    s.chars().collect()
}

#[test]
fn character_classes_agree_with_std_on_every_char() {
    for n in 0u32..=0x10FFFF {
        if let Some(c) = char::from_u32(n) {
            assert_eq!(is_space_char(c), c.is_whitespace(), "white space {:?}", c);
            assert_eq!(is_alnum_char(c), c.is_ascii_alphanumeric(), "alnum {:?}", c);
            assert_eq!(is_hex_char(c), c.is_ascii_hexdigit(), "hex {:?}", c);
            assert_eq!(lower_char(c), c.to_ascii_lowercase(), "lower {:?}", c);
            assert_eq!(upper_char(c), c.to_ascii_uppercase(), "upper {:?}", c);
        }
    }
}

#[test]
fn strings_and_chars_convert_both_ways() {
    assert_eq!(to_chars("héllo"), vec!['h', 'é', 'l', 'l', 'o']);
    assert_eq!(to_chars(""), Vec::<char>::new());
    assert_eq!(to_string(&vec!['a', 'ß', '/']), "aß/");
    assert_eq!(to_string(&Vec::new()), "");
    assert_eq!(to_string(&to_chars("C:\\Roms\\ゲーム")), "C:\\Roms\\ゲーム");
}

#[test]
fn case_mapping_touches_ascii_letters_only() {
    assert_eq!(to_string(&lower_chars(&chars("GameDirs\\Path ÄÖ 09"))), "gamedirs\\path ÄÖ 09");
    assert_eq!(to_string(&upper_chars(&chars("01007ef00011e000 äz"))), "01007EF00011E000 äZ");
}

#[test]
fn trim_removes_unicode_white_space_at_both_ends() {
    for s in [
        "",
        " ",
        "  a b  ",
        "\t\r\nkey = value\r\n",
        "\u{a0}\u{3000}x\u{2028}",
        "no-space",
        " \u{feff}x ",
    ] {
        assert_eq!(to_string(&trim_chars(&chars(s))), s.trim(), "trim {:?}", s);
    }
}

#[test]
fn searching_agrees_with_std() {
    let hay = "the gamedir of gamedirs";
    for pat in ["gamedir", "gamedirs", "the", "s", "", "x", "the gamedir of gamedirs!", "dirs"] {
        let h = chars(hay);
        let p = chars(pat);
        assert_eq!(contains_chars(&h, &p), hay.contains(pat), "contains {:?}", pat);
        assert_eq!(starts_with_chars(&h, &p), hay.starts_with(pat), "starts {:?}", pat);
        assert_eq!(ends_with_chars(&h, &p), hay.ends_with(pat), "ends {:?}", pat);
    }
    assert!(contains_chars(&chars(""), &chars("")));
    assert!(!contains_chars(&chars(""), &chars("a")));
}

#[test]
fn occurs_at_checks_one_place() {
    let h = chars("abcabc");
    assert!(occurs_at_chars(&h, &chars("abc"), 0));
    assert!(occurs_at_chars(&h, &chars("abc"), 3));
    assert!(!occurs_at_chars(&h, &chars("abc"), 1));
    assert!(!occurs_at_chars(&h, &chars("abc"), 4));
    assert!(occurs_at_chars(&h, &chars(""), 6));
    assert!(!occurs_at_chars(&h, &chars(""), 7));
}

#[test]
fn find_char_gives_the_first_index_or_the_length() {
    assert_eq!(find_char(&chars("key=a=b"), '='), 3);
    assert_eq!(find_char(&chars("=x"), '='), 0);
    assert_eq!(find_char(&chars("none"), '='), 4);
    assert_eq!(find_char(&chars(""), '='), 0);
    assert_eq!(find_char_from(&chars("a\nb\nc"), 0, '\n'), 1);
    assert_eq!(find_char_from(&chars("a\nb\nc"), 2, '\n'), 3);
    assert_eq!(find_char_from(&chars("a\nb\nc"), 4, '\n'), 5);
    assert_eq!(find_char_from(&chars("a\nb\nc"), 5, '\n'), 5);
}

#[test]
fn slicing_and_joining() {
    let v = chars("hello world");
    assert_eq!(to_string(&subvec(&v, 6, 11)), "world");
    assert_eq!(to_string(&subvec(&v, 3, 3)), "");
    assert_eq!(to_string(&joined(&chars("ab"), &chars("cd"))), "abcd");
    assert_eq!(to_string(&joined(&chars(""), &chars(""))), "");
}

#[test]
fn equality_of_texts() {
    assert!(chars_eq(&chars("abc"), &chars("abc")));
    assert!(!chars_eq(&chars("abc"), &chars("abd")));
    assert!(!chars_eq(&chars("abc"), &chars("ab")));
    assert!(chars_eq(&chars(""), &chars("")));
    assert!(str_eq("nsp", "nsp"));
    assert!(!str_eq("nsp", "NSP"));
    assert!(!str_eq("nsp", "nsp "));
}
