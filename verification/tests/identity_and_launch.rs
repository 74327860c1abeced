use game_scanner::games::Game;
use game_scanner::identity::{assign_id, hex_digit_char, to_hex_lower};
use game_scanner::launch::{launch_failure, launch_game};

fn game(path: &str, emulator: &str) -> Game {
    Game {
        id: "id".to_string(),
        title: "t".to_string(),
        path: path.to_string(),
        icon: None,
        emulator: emulator.to_string(),
    }
}

#[test]
fn assign_id_is_the_md5_of_the_path_in_lower_hex() {
    assert_eq!(assign_id("abcdefghijklmnopqrstuvwxyz"), "c3fcd3d76192e4007dfb496cca67e13b");
    assert_eq!(assign_id(""), "d41d8cd98f00b204e9800998ecf8427e");
    assert_eq!(assign_id("abc"), "900150983cd24fb0d6963f7d28e17f72");
}

#[test]
fn assign_id_agrees_with_the_digest_crate() {
    for path in ["/games/a.nsp", "C:\\Roms\\Zelda.xci", "/home/ü/ゲーム.nsp"] {
        assert_eq!(assign_id(path), format!("{:x}", md5::compute(path.as_bytes())));
    }
}

#[test]
fn assign_id_is_deterministic_and_tells_paths_apart() {
    let a1 = assign_id("/games/a.nsp");
    let a2 = assign_id("/games/a.nsp");
    let b = assign_id("/games/b.nsp");
    assert_eq!(a1, a2);
    assert_ne!(a1, b);
    assert_eq!(a1.len(), 32);
    assert!(a1.chars().all(|c| c.is_ascii_digit() || ('a'..='f').contains(&c)));
}

#[test]
fn hex_rendering() {
    assert_eq!(to_hex_lower(&[]), "");
    assert_eq!(to_hex_lower(&[0x00, 0x0f, 0xa0, 0xff, 0x12]), "000fa0ff12");
    assert_eq!(hex_digit_char(0), '0');
    assert_eq!(hex_digit_char(9), '9');
    assert_eq!(hex_digit_char(10), 'a');
    assert_eq!(hex_digit_char(15), 'f');
}

#[test]
fn launch_names_the_executable_of_the_emulator() {
    let yuzu = launch_game(&game("/g/a.nsp", "yuzu"), false).unwrap();
    assert_eq!(yuzu.program, "yuzu");
    assert_eq!(yuzu.argument, "/g/a.nsp");
    let yuzu_win = launch_game(&game("C:\\g\\a.nsp", "yuzu"), true).unwrap();
    assert_eq!(yuzu_win.program, "yuzu.exe");
    assert_eq!(yuzu_win.argument, "C:\\g\\a.nsp");
    let ryu = launch_game(&game("/g/b.xci", "ryujinx"), false).unwrap();
    assert_eq!(ryu.program, "Ryujinx");
    let ryu_win = launch_game(&game("/g/b.xci", "ryujinx"), true).unwrap();
    assert_eq!(ryu_win.program, "Ryujinx.exe");
}

#[test]
fn launch_refuses_an_unknown_emulator() {
    for tag in ["cemu", "", "Yuzu", "ryujinx "] {
        match launch_game(&game("/g/a.nsp", tag), false) {
            Ok(_) => panic!("accepted the tag {:?}", tag),
            Err(message) => assert_eq!(message, "Unknown emulator"),
        }
    }
}

#[test]
fn launch_failure_wraps_the_os_error() {
    assert_eq!(
        launch_failure("No such file or directory (os error 2)"),
        "Failed to launch game: No such file or directory (os error 2)"
    );
    assert_eq!(launch_failure(""), "Failed to launch game: ");
}
