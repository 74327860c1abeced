use game_scanner::config::{
    is_game_dir_key_chars, parse_line, read_yuzu_game_dirs_from_config, strip_quote_chars,
};

fn chars(s: &str) -> Vec<char> {
    s.chars().collect()
}

fn line(s: &str) -> Option<String> {
    parse_line(&chars(s)).map(|v| v.into_iter().collect())
}

#[test]
fn path_key_with_game_dirs_is_accepted() {
    assert_eq!(line("GameDirs\\path=C:\\Roms"), Some("C:\\Roms".to_string()));
}

#[test]
fn key_that_only_holds_the_word_is_rejected() {
    assert_eq!(line("SomeOtherGameDirFlag=true"), None);
}

#[test]
fn byte_array_value_is_rejected_whatever_the_key() {
    assert_eq!(line("GameDirs\\path=@ByteArray(abc)"), None);
    assert_eq!(line("gamedir=@ByteArray()"), None);
    assert_eq!(line("Paths\\gamedirs=\"@ByteArray(\\0\\0)\""), None);
    assert_eq!(line("other=@ByteArray(abc)"), None);
}

#[test]
fn keys_are_matched_in_lower_case() {
    assert_eq!(line("Paths\\GAMEDIR=/roms"), Some("/roms".to_string()));
    assert_eq!(line("Paths\\gamedirs=/roms"), Some("/roms".to_string()));
    assert_eq!(line("game_directory_path=/roms"), Some("/roms".to_string()));
    assert_eq!(line("Game_Directory=/roms"), None);
    assert_eq!(line("path=/roms"), None);
    assert_eq!(line("gamedir_size=4"), None);
}

#[test]
fn key_rule_is_a_conjunction() {
    assert!(is_game_dir_key_chars(&chars("gamedirs\\path")));
    assert!(is_game_dir_key_chars(&chars("ui\\gamedir")));
    assert!(is_game_dir_key_chars(&chars("ui\\gamedirs")));
    assert!(is_game_dir_key_chars(&chars("game_directory\\1\\path")));
    assert!(!is_game_dir_key_chars(&chars("someothergamedirflag")));
    assert!(!is_game_dir_key_chars(&chars("game_directory")));
    assert!(!is_game_dir_key_chars(&chars("path")));
    assert!(!is_game_dir_key_chars(&chars("")));
}

#[test]
fn blank_comment_and_section_lines_are_skipped() {
    assert_eq!(line(""), None);
    assert_eq!(line("   \t"), None);
    assert_eq!(line("# gamedir=/roms"), None);
    assert_eq!(line("   #gamedir=/roms"), None);
    assert_eq!(line("[gamedir=/roms]"), None);
    assert_eq!(line("gamedir /roms"), None);
}

#[test]
fn value_is_trimmed_and_split_at_the_first_equals_sign() {
    assert_eq!(line("  gamedir  =   /roms/a=b  "), Some("/roms/a=b".to_string()));
    assert_eq!(line("gamedir="), None);
    assert_eq!(line("gamedir=    "), None);
    assert_eq!(line("gamedir=\"\""), None);
    assert_eq!(line("gamedir=\""), None);
}

#[test]
fn one_layer_of_quotes_is_stripped() {
    assert_eq!(line("gamedir=\"/my roms\""), Some("/my roms".to_string()));
    assert_eq!(line("gamedir=\"/my roms"), Some("/my roms".to_string()));
    assert_eq!(line("gamedir=/my roms\""), Some("/my roms".to_string()));
    assert_eq!(line("gamedir=\"\"/my roms\"\""), Some("\"/my roms\"".to_string()));
    let stripped: String = strip_quote_chars(&chars("\"a\"b\"")).into_iter().collect();
    assert_eq!(stripped, "a\"b");
}

#[test]
fn backslashes_are_kept() {
    assert_eq!(line("gamedir=C:\\\\Games\\\\Switch"), Some("C:\\\\Games\\\\Switch".to_string()));
}

#[test]
fn reader_collects_the_directories_in_line_order() {
    let text = "[UI]\r\n\
                # a comment\r\n\
                Paths\\gamedirs\\1\\path=C:\\Roms\r\n\
                Paths\\gamedirs\\1\\deep_scan=false\r\n\
                Paths\\gamedirs\\2\\path=\"D:\\More Roms\"\r\n\
                Paths\\gamedirs\\size=2\r\n\
                recentFiles=@ByteArray(x)\r\n\
                Screenshots\\screenshot_path=/tmp/shots\r\n\
                \r\n\
                Paths\\gamedir=/home/u/roms";
    assert_eq!(
        read_yuzu_game_dirs_from_config(Some(text)),
        vec!["C:\\Roms", "false", "D:\\More Roms", "2", "/home/u/roms"]
    );
}

#[test]
fn reader_yields_nothing_for_an_unreadable_or_empty_file() {
    assert!(read_yuzu_game_dirs_from_config(None).is_empty());
    assert!(read_yuzu_game_dirs_from_config(Some("")).is_empty());
    assert!(read_yuzu_game_dirs_from_config(Some("\n\n\n")).is_empty());
}

#[test]
fn reader_handles_a_last_line_with_and_without_newline() {
    assert_eq!(read_yuzu_game_dirs_from_config(Some("gamedir=/a\n")), vec!["/a"]);
    assert_eq!(read_yuzu_game_dirs_from_config(Some("gamedir=/a")), vec!["/a"]);
    assert_eq!(read_yuzu_game_dirs_from_config(Some("\ngamedir=/a\n\ngamedir=/b")), vec!["/a", "/b"]);
}
