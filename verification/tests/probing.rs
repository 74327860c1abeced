use game_scanner::games::Emulator;
use game_scanner::paths::{join, path_position, position, sorted_unique, Position};
use std::path::{Path, PathBuf};
use game_scanner::prober::{
    cached_icon_title_id, config_file_dirs, downloads_dir, find_yuzu_config_paths,
    is_yuzu_config_file, probe, ryujinx_config_roots, ryujinx_games_dir, ryujinx_icon_cache_dir,
    ryujinx_search_dirs, yuzu_search_dirs, yuzu_static_dirs, CachedFile, ConfigFile, WalkedFile,
    CONFIG_SEARCH_DEPTH, ICON_CACHE_DEPTH, ROM_SEARCH_DEPTH,
};

fn chars(s: &str) -> Vec<char> {
    s.chars().collect()
}

fn strings(v: &[&str]) -> Vec<String> {
    v.iter().map(|s| s.to_string()).collect()
}

/// What the standard library makes of the list: sorted as paths, and of
/// neighbours that are one path the first kept.
fn sorted_as_paths(v: &[String]) -> Vec<String> {
    let mut paths: Vec<PathBuf> = v.iter().map(PathBuf::from).collect();
    paths.sort();
    paths.dedup();
    paths.iter().map(|p| p.to_string_lossy().to_string()).collect()
}

fn walked(path: &str, name: Option<&str>, is_file: bool) -> WalkedFile {
    WalkedFile { path: path.to_string(), file_name: name.map(|n| n.to_string()), is_file }
}

fn cached(name: Option<&str>, parent: Option<&str>) -> CachedFile {
    CachedFile {
        file_name: name.map(|n| n.to_string()),
        parent_name: parent.map(|n| n.to_string()),
    }
}

#[test]
fn join_puts_one_separator_between() {
    assert_eq!(join("/home/u", "Downloads", false), "/home/u/Downloads");
    assert_eq!(join("/home/u/", "Downloads", false), "/home/u/Downloads");
    assert_eq!(join("/", "Ryujinx/games", false), "/Ryujinx/games");
    assert_eq!(join("", "games", false), "games");
    assert_eq!(join("/games", "Zelda", false), "/games/Zelda");
    assert_eq!(join("/games", "", false), "/games/");
}

#[test]
fn names_are_ordered_by_character() {
    assert_eq!(position(&chars("a"), &chars("b")), Position::Before);
    assert_eq!(position(&chars("b"), &chars("a")), Position::After);
    assert_eq!(position(&chars("abc"), &chars("abc")), Position::Same);
    assert_eq!(position(&chars("ab"), &chars("abc")), Position::Before);
    assert_eq!(position(&chars("abc"), &chars("ab")), Position::After);
    assert_eq!(position(&chars(""), &chars("")), Position::Same);
    assert_eq!(position(&chars(""), &chars("a")), Position::Before);
    assert_eq!(position(&chars("Z"), &chars("a")), Position::Before);
}

#[test]
fn paths_are_ordered_component_by_component() {
    // the component `a` comes before `a b` and before `a.b`
    assert_eq!(path_position("/r/a/c", "/r/a b", false), Position::Before);
    assert_eq!(path_position("/r/a b", "/r/a/c", false), Position::After);
    assert_eq!(path_position("a/b", "a.b", false), Position::Before);
    // a path comes before what lies below it
    assert_eq!(path_position("/home/u", "/home/u/Downloads", false), Position::Before);
    // the root comes before a leading dot, that before `..`, that before a name
    assert_eq!(path_position("/a", "./a", false), Position::Before);
    assert_eq!(path_position("./a", "../a", false), Position::Before);
    assert_eq!(path_position("../a", "a", false), Position::Before);
    assert_eq!(path_position("", "a", false), Position::Before);
}

#[test]
fn strings_with_the_same_components_are_one_path() {
    for other in ["/roms/a/", "/roms//a", "/roms/./a", "//roms/a/.", "/roms/a"] {
        assert_eq!(path_position("/roms/a", other, false), Position::Same, "{}", other);
    }
    assert_eq!(path_position("a/b", "./a/b", false), Position::After);
    assert_eq!(path_position("/roms/a", "/roms/../a", false), Position::After);
    assert_eq!(path_position("/roms/a", "roms/a", false), Position::Before);
    assert_eq!(path_position("", ".", false), Position::Before);
    assert_eq!(path_position(".", "./", false), Position::Same);
}

#[test]
fn path_order_agrees_with_the_standard_library() {
    let samples = [
        "", ".", "..", "/", "//", "./", "/.", "a", "a/", "a/.", "./a", "a/b", "a//b", "a/./b",
        "a/../b", "/a", "/a/b", "/a b", "/a.b", "/a/b/", "a b", "a.b", "ab", "A", "é", "/é/x",
        "C:/Ryujinx/games", "/home/u/Games/Switch", "/home/u/Games", "..a", ".a", "a/..", "...",
    ];
    for a in samples {
        for b in samples {
            let expected = if Path::new(a) < Path::new(b) {
                Position::Before
            } else if Path::new(a) == Path::new(b) {
                Position::Same
            } else {
                Position::After
            };
            assert_eq!(path_position(a, b, false), expected, "{:?} and {:?}", a, b);
        }
    }
}

#[test]
fn both_slashes_separate_on_windows() {
    assert_eq!(path_position("C:\\Roms\\a", "C:/Roms/a", true), Position::Same);
    assert_eq!(path_position("C:\\Roms\\a", "C:/Roms/a", false), Position::After);
    assert_eq!(path_position("C:\\r\\a\\c", "C:\\r\\a b", true), Position::Before);
    assert_eq!(join("C:\\Users\\u", "Downloads", true), "C:\\Users\\u\\Downloads");
    assert_eq!(join("C:\\Users\\u\\", "Downloads", true), "C:\\Users\\u\\Downloads");
    assert_eq!(join("C:/Users/u/", "Downloads", true), "C:/Users/u/Downloads");
    assert_eq!(join("C:\\Users\\u", "Games/Switch", true), "C:\\Users\\u\\Games/Switch");
    assert_eq!(join("/home/u\\", "Downloads", false), "/home/u\\/Downloads");
    assert_eq!(
        yuzu_static_dirs("C:\\Users\\u", true)[0],
        "C:\\Users\\u\\.local/share/yuzu/load"
    );
}

#[test]
fn sorted_unique_sorts_and_removes_duplicates() {
    assert_eq!(
        sorted_unique(&strings(&["/b", "/a", "/c", "/a", "/b/x", "/b"]), false),
        strings(&["/a", "/b", "/b/x", "/c"])
    );
    assert!(sorted_unique(&Vec::new(), false).is_empty());
    let mixed = strings(&["z", "é", "Z", "a", "", "a", "ab", "a/c", "a b", "/x", "./x", "../x"]);
    assert_eq!(sorted_unique(&mixed, false), sorted_as_paths(&mixed));
}

#[test]
fn sorted_unique_orders_directories_as_paths() {
    assert_eq!(
        sorted_unique(&strings(&["/r/a b", "/r/a/c"]), false),
        strings(&["/r/a/c", "/r/a b"])
    );
    assert_eq!(sorted_unique(&strings(&["a b", "a/c"]), false), strings(&["a/c", "a b"]));
}

#[test]
fn sorted_unique_keeps_the_first_string_of_a_path() {
    let items = strings(&["/roms/b", "/roms/a/", "/roms/a", "/roms//a", "/roms/./a"]);
    assert_eq!(sorted_unique(&items, false), strings(&["/roms/a/", "/roms/b"]));
    assert_eq!(sorted_unique(&items, false), sorted_as_paths(&items));
    let other = strings(&["/roms//a", "/roms/a"]);
    assert_eq!(sorted_unique(&other, false), strings(&["/roms//a"]));
}

#[test]
fn depth_limits() {
    assert_eq!(ROM_SEARCH_DEPTH, 3);
    assert_eq!(ICON_CACHE_DEPTH, 2);
    assert_eq!(CONFIG_SEARCH_DEPTH, 6);
}

#[test]
fn yuzu_static_directories() {
    assert_eq!(
        yuzu_static_dirs("/home/u", false),
        strings(&[
            "/home/u/.local/share/yuzu/load",
            "/home/u/AppData/Roaming/yuzu/load",
            "/home/u/AppData/Roaming/yuzu/nand/user/Contents/registered",
            "/home/u/Library/Application Support/yuzu/load",
            "/home/u/Documents/Yuzu/games",
            "/home/u/Games/Switch",
            "/home/u/Games/Yuzu",
            "/home/u/Downloads",
            "/home/u/Downloads/Switch",
        ])
    );
    assert_eq!(downloads_dir("/home/u", false), "/home/u/Downloads");
}

#[test]
fn yuzu_config_file_is_recognised_whatever_the_case() {
    assert!(is_yuzu_config_file(&walked(
        "/home/u/Downloads/Yuzu-EA/user/config/QT-Config.INI",
        Some("QT-Config.INI"),
        true
    )));
    assert!(is_yuzu_config_file(&walked(
        "/home/u/Downloads/yuzu/qt-config.ini",
        Some("qt-config.ini"),
        true
    )));
    // the path does not name the emulator
    assert!(!is_yuzu_config_file(&walked(
        "/home/u/Downloads/citra/qt-config.ini",
        Some("qt-config.ini"),
        true
    )));
    // another file
    assert!(!is_yuzu_config_file(&walked(
        "/home/u/Downloads/yuzu/config.ini",
        Some("config.ini"),
        true
    )));
    // a directory of that name
    assert!(!is_yuzu_config_file(&walked(
        "/home/u/Downloads/yuzu/qt-config.ini",
        Some("qt-config.ini"),
        false
    )));
    // a name that is no valid text
    assert!(!is_yuzu_config_file(&walked("/home/u/Downloads/yuzu/x", None, true)));
}

#[test]
fn config_paths_are_the_standard_places_then_the_walked_ones() {
    let found = vec![
        walked("/home/u/Downloads/yuzu", Some("yuzu"), false),
        walked("/home/u/Downloads/yuzu/user/config/qt-config.ini", Some("qt-config.ini"), true),
        walked("/home/u/Downloads/other/qt-config.ini", Some("qt-config.ini"), true),
        walked("/home/u/Downloads/YUZU2/config/Qt-Config.ini", Some("Qt-Config.ini"), true),
    ];
    assert_eq!(
        find_yuzu_config_paths("/home/u", &found, false),
        strings(&[
            "/home/u/AppData/Roaming/yuzu/qt-config.ini",
            "/home/u/.local/share/yuzu/qt-config.ini",
            "/home/u/Library/Application Support/yuzu/qt-config.ini",
            "/home/u/Downloads/yuzu/user/config/qt-config.ini",
            "/home/u/Downloads/YUZU2/config/Qt-Config.ini",
        ])
    );
    assert_eq!(find_yuzu_config_paths("/home/u", &Vec::new(), false).len(), 3);
}

#[test]
fn config_file_adds_declared_and_portable_directories() {
    let config = ConfigFile {
        path: "/home/u/Downloads/yuzu/user/config/qt-config.ini".to_string(),
        user_dir: Some("/home/u/Downloads/yuzu/user".to_string()),
        contents: Some("Paths\\gamedirs\\1\\path=/roms\n".to_string()),
    };
    assert_eq!(
        config_file_dirs(&config, false),
        strings(&[
            "/roms",
            "/home/u/Downloads/yuzu/user/load",
            "/home/u/Downloads/yuzu/user/nand/user/Contents/registered",
        ])
    );
    let unreadable = ConfigFile {
        path: "/x/y/qt-config.ini".to_string(),
        user_dir: Some("/x".to_string()),
        contents: None,
    };
    assert_eq!(
        config_file_dirs(&unreadable, false),
        strings(&["/x/load", "/x/nand/user/Contents/registered"])
    );
    let rootless = ConfigFile {
        path: "qt-config.ini".to_string(),
        user_dir: None,
        contents: Some("gamedir=/r".to_string()),
    };
    assert_eq!(config_file_dirs(&rootless, false), strings(&["/r"]));
}

#[test]
fn yuzu_search_directories_are_sorted_and_unique() {
    let configs = vec![
        ConfigFile {
            path: "/home/u/.local/share/yuzu/qt-config.ini".to_string(),
            user_dir: Some("/home/u/.local/share".to_string()),
            contents: Some(
                "Paths\\gamedirs\\1\\path=/home/u/Games/Switch\nPaths\\gamedirs\\2\\path=/mnt/roms\n"
                    .to_string(),
            ),
        },
        ConfigFile {
            path: "/home/u/AppData/Roaming/yuzu/qt-config.ini".to_string(),
            user_dir: Some("/home/u/AppData/Roaming".to_string()),
            contents: None,
        },
    ];
    let mut expected = strings(&[
        "/home/u/.local/share/yuzu/load",
        "/home/u/AppData/Roaming/yuzu/load",
        "/home/u/AppData/Roaming/yuzu/nand/user/Contents/registered",
        "/home/u/Library/Application Support/yuzu/load",
        "/home/u/Documents/Yuzu/games",
        "/home/u/Games/Switch",
        "/home/u/Games/Yuzu",
        "/home/u/Downloads",
        "/home/u/Downloads/Switch",
        "/mnt/roms",
        "/home/u/.local/share/load",
        "/home/u/.local/share/nand/user/Contents/registered",
        "/home/u/AppData/Roaming/load",
        "/home/u/AppData/Roaming/nand/user/Contents/registered",
    ]);
    let dirs = yuzu_search_dirs("/home/u", &configs, false);
    assert_eq!(dirs, sorted_as_paths(&expected));
    assert_eq!(dirs.len(), 14);
    for pair in dirs.windows(2) {
        assert!(Path::new(&pair[0]) < Path::new(&pair[1]));
    }
}

#[test]
fn yuzu_search_directories_without_configs_are_the_static_ones() {
    let expected = sorted_as_paths(&yuzu_static_dirs("/home/u", false));
    assert_eq!(yuzu_search_dirs("/home/u", &Vec::new(), false), expected);
}

#[test]
fn ryujinx_directories() {
    assert_eq!(
        ryujinx_config_roots("/home/u", false),
        strings(&[
            "/home/u/.config/Ryujinx",
            "/home/u/AppData/Roaming/Ryujinx",
            "/home/u/Library/Application Support/Ryujinx",
        ])
    );
    assert_eq!(ryujinx_games_dir("/home/u/.config/Ryujinx", false), "/home/u/.config/Ryujinx/games");
    assert_eq!(
        ryujinx_icon_cache_dir("/home/u/.config/Ryujinx", false),
        "/home/u/.config/Ryujinx/bis/user/save/0000000000000000/0000000000000000/cache"
    );
    assert_eq!(
        ryujinx_search_dirs("/home/u", false),
        strings(&[
            "/home/u/.config/Ryujinx/games",
            "/home/u/AppData/Roaming/Ryujinx/games",
            "/home/u/Library/Application Support/Ryujinx/games",
            "/home/u/Ryujinx/games",
            "C:/Ryujinx/games",
        ])
    );
}

#[test]
fn ryujinx_portable_install_on_the_fixed_root_is_listed_once() {
    // with this home the two portable installs are one directory
    let dirs = ryujinx_search_dirs("C:", false);
    assert_eq!(dirs.iter().filter(|d| d.as_str() == "C:/Ryujinx/games").count(), 1);
    assert_eq!(dirs.len(), 4);
}

#[test]
fn cached_icon_belongs_to_the_title_of_its_directory() {
    assert_eq!(
        cached_icon_title_id(&cached(Some("icon.jpg"), Some("0100000000010000"))),
        Some("0100000000010000".to_string())
    );
    assert_eq!(
        cached_icon_title_id(&cached(Some("x.png"), Some("01007EF00011e000"))),
        Some("01007EF00011e000".to_string())
    );
    assert_eq!(cached_icon_title_id(&cached(Some("x.gif"), Some("0100000000010000"))), None);
    assert_eq!(cached_icon_title_id(&cached(Some("x.PNG"), Some("0100000000010000"))), None);
    assert_eq!(cached_icon_title_id(&cached(Some("x.png"), Some("cache"))), None);
    assert_eq!(cached_icon_title_id(&cached(Some("x.png"), None)), None);
    assert_eq!(cached_icon_title_id(&cached(None, Some("0100000000010000"))), None);
}

#[test]
fn probe_lists_the_directories_of_the_emulator() {
    let configs = vec![ConfigFile {
        path: "/p/user/config/qt-config.ini".to_string(),
        user_dir: Some("/p/user".to_string()),
        contents: Some("Paths\\gamedirs\\1\\path=/mnt/roms".to_string()),
    }];
    let yuzu = probe("/home/u", Emulator::Yuzu, &configs, false);
    assert_eq!(yuzu, yuzu_search_dirs("/home/u", &configs, false));
    assert!(yuzu.contains(&"/mnt/roms".to_string()));
    assert!(yuzu.contains(&"/p/user/load".to_string()));
    assert!(yuzu.contains(&"/p/user/nand/user/Contents/registered".to_string()));
    assert_eq!(yuzu.len(), 12);
    // the configuration files of yuzu add nothing for Ryujinx
    let ryujinx = probe("/home/u", Emulator::Ryujinx, &configs, false);
    assert_eq!(ryujinx, ryujinx_search_dirs("/home/u", false));
    assert!(!ryujinx.contains(&"/mnt/roms".to_string()));
}

#[test]
fn declared_directories_are_walked_in_path_order_and_once() {
    let configs = vec![ConfigFile {
        path: "/p/user/config/qt-config.ini".to_string(),
        user_dir: None,
        contents: Some(
            "gamedir=/r/a b\ngamedir=/r/a/c\ngamedir=/r//a/c/\ngamedir=/home/u/Downloads/"
                .to_string(),
        ),
    }];
    let dirs = yuzu_search_dirs("/home/u", &configs, false);
    let a_c = dirs.iter().position(|d| d == "/r/a/c").unwrap();
    let a_b = dirs.iter().position(|d| d == "/r/a b").unwrap();
    assert!(a_c < a_b);
    // the second spelling of the path is not walked again
    assert!(!dirs.contains(&"/r//a/c/".to_string()));
    // nor is the spelling from the configuration, which came after the static one
    assert!(dirs.contains(&"/home/u/Downloads".to_string()));
    assert!(!dirs.contains(&"/home/u/Downloads/".to_string()));
    assert_eq!(dirs.len(), 11);
}
