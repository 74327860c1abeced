//! Where to look for games.
//!
//! From the user's home directory, and for yuzu from its configuration
//! files, the prober lists the directories that may hold games. It does not
//! look at the disk: whoever walks the directories leaves out those that do
//! not exist.

use crate::config::{declared_game_dirs, read_yuzu_game_dirs_from_config};
use crate::games::Emulator;
use crate::icon::{is_title_id, is_title_id_chars};
use crate::paths::{join, join_spec, opt_view, sorted_paths_of, sorted_unique};
use crate::text::{
    chars_eq, contains_chars, contains_seq, ends_with_chars, ends_with_seq, lower_chars,
    lower_seq, to_chars, views,
};
use vstd::prelude::*;
use vstd::string::StringExecFns;

verus! {

/// How deep a directory is walked for games.
pub const ROM_SEARCH_DEPTH: usize = 3;

/// How deep the icon cache of Ryujinx is walked.
pub const ICON_CACHE_DEPTH: usize = 2;

/// How deep the downloads directory is walked for configuration files.
pub const CONFIG_SEARCH_DEPTH: usize = 6;

/// The directories in which yuzu keeps or users keep games, below `home`.
pub open spec fn yuzu_static_dirs_spec(home: Seq<char>, windows: bool) -> Seq<Seq<char>> {
    seq![
        join_spec(home, ".local/share/yuzu/load"@, windows),
        join_spec(home, "AppData/Roaming/yuzu/load"@, windows),
        join_spec(home, "AppData/Roaming/yuzu/nand/user/Contents/registered"@, windows),
        join_spec(home, "Library/Application Support/yuzu/load"@, windows),
        join_spec(home, "Documents/Yuzu/games"@, windows),
        join_spec(home, "Games/Switch"@, windows),
        join_spec(home, "Games/Yuzu"@, windows),
        join_spec(home, "Downloads"@, windows),
        join_spec(home, "Downloads/Switch"@, windows),
    ]
}

/// The places of yuzu's configuration file in a standard install.
pub open spec fn yuzu_config_candidates(home: Seq<char>, windows: bool) -> Seq<Seq<char>> {
    seq![
        join_spec(home, "AppData/Roaming/yuzu/qt-config.ini"@, windows),
        join_spec(home, ".local/share/yuzu/qt-config.ini"@, windows),
        join_spec(home, "Library/Application Support/yuzu/qt-config.ini"@, windows),
    ]
}

/// A file or directory that a walk came across.
pub struct WalkedFile {
    /// The whole path.
    pub path: String,
    /// The last component of the path, where it is valid text.
    pub file_name: Option<String>,
    /// Whether it is a regular file.
    pub is_file: bool,
}

/// The mathematical value of a `WalkedFile`.
pub struct WalkedFileView {
    pub path: Seq<char>,
    pub file_name: Option<Seq<char>>,
    pub is_file: bool,
}

impl View for WalkedFile {
    type V = WalkedFileView;

    open spec fn view(&self) -> WalkedFileView {
        WalkedFileView {
            path: self.path@,
            file_name: opt_view(self.file_name),
            is_file: self.is_file,
        }
    }
}

/// A walked file is a configuration file of yuzu: a regular file named
/// `qt-config.ini` whose path holds `yuzu`, both whatever the case of the
/// ASCII letters.
pub open spec fn is_yuzu_config(file: WalkedFileView) -> bool {
    &&& file.is_file
    &&& file.file_name matches Some(name)
    &&& lower_seq(name) == "qt-config.ini"@
    &&& contains_seq(lower_seq(file.path), "yuzu"@)
}

/// The paths of the configuration files of yuzu among `walked`, in order.
pub open spec fn config_paths_in(walked: Seq<WalkedFile>) -> Seq<Seq<char>>
    decreases walked.len(),
{
    if walked.len() == 0 {
        seq![]
    } else {
        let before = config_paths_in(walked.drop_last());
        if is_yuzu_config(walked.last()@) {
            before.push(walked.last().path@)
        } else {
            before
        }
    }
}

/// A configuration file of yuzu, with what was read from it.
pub struct ConfigFile {
    /// The path of the file.
    pub path: String,
    /// The directory two levels above the file: the user directory of a
    /// portable install. `None` where the path has no such ancestor.
    pub user_dir: Option<String>,
    /// The text of the file, or `None` where it could not be read.
    pub contents: Option<String>,
}

/// The mathematical value of a `ConfigFile`.
pub struct ConfigFileView {
    pub path: Seq<char>,
    pub user_dir: Option<Seq<char>>,
    pub contents: Option<Seq<char>>,
}

impl View for ConfigFile {
    type V = ConfigFileView;

    open spec fn view(&self) -> ConfigFileView {
        ConfigFileView {
            path: self.path@,
            user_dir: opt_view(self.user_dir),
            contents: opt_view(self.contents),
        }
    }
}

/// The game directories of a portable install with the user directory
/// `user_dir`.
pub open spec fn portable_dirs(user_dir: Option<Seq<char>>, windows: bool) -> Seq<Seq<char>> {
    match user_dir {
        Some(dir) => seq![
            join_spec(dir, "load"@, windows),
            join_spec(dir, "nand/user/Contents/registered"@, windows),
        ],
        None => seq![],
    }
}

/// The directories that one configuration file adds: those that it
/// declares, then those of the portable install around it.
pub open spec fn config_dirs(config: ConfigFileView, windows: bool) -> Seq<Seq<char>> {
    declared_game_dirs(config.contents) + portable_dirs(config.user_dir, windows)
}

/// The directories that the configuration files add, file by file.
pub open spec fn all_config_dirs(configs: Seq<ConfigFile>, windows: bool) -> Seq<Seq<char>>
    decreases configs.len(),
{
    if configs.len() == 0 {
        seq![]
    } else {
        all_config_dirs(configs.drop_last(), windows) + config_dirs(configs.last()@, windows)
    }
}

/// Every directory that may hold games of yuzu, before sorting.
pub open spec fn yuzu_candidates(home: Seq<char>, configs: Seq<ConfigFile>, windows: bool) -> Seq<Seq<char>> {
    yuzu_static_dirs_spec(home, windows) + all_config_dirs(configs, windows)
}

/// The configuration directories of Ryujinx below `home`.
pub open spec fn ryujinx_config_roots_spec(home: Seq<char>, windows: bool) -> Seq<Seq<char>> {
    seq![
        join_spec(home, ".config/Ryujinx"@, windows),
        join_spec(home, "AppData/Roaming/Ryujinx"@, windows),
        join_spec(home, "Library/Application Support/Ryujinx"@, windows),
    ]
}

/// The games directory below a configuration directory of Ryujinx.
pub open spec fn ryujinx_games_dir_spec(root: Seq<char>, windows: bool) -> Seq<char> {
    join_spec(root, "games"@, windows)
}

/// The icon cache below a configuration directory of Ryujinx.
pub open spec fn ryujinx_icon_cache_dir_spec(root: Seq<char>, windows: bool) -> Seq<char> {
    join_spec(root, "bis/user/save/0000000000000000/0000000000000000/cache"@, windows)
}

/// Every directory that may hold games of Ryujinx, before sorting: the games
/// directory of each configuration directory, and the two portable installs.
pub open spec fn ryujinx_candidates(home: Seq<char>, windows: bool) -> Seq<Seq<char>> {
    seq![
        ryujinx_games_dir_spec(ryujinx_config_roots_spec(home, windows)[0], windows),
        ryujinx_games_dir_spec(ryujinx_config_roots_spec(home, windows)[1], windows),
        ryujinx_games_dir_spec(ryujinx_config_roots_spec(home, windows)[2], windows),
        "C:/Ryujinx/games"@,
        join_spec(home, "Ryujinx/games"@, windows),
    ]
}

/// A file of the icon cache of Ryujinx, by its names.
pub struct CachedFile {
    /// The name of the file, where it is valid text.
    pub file_name: Option<String>,
    /// The name of the directory that holds it.
    pub parent_name: Option<String>,
}

/// The mathematical value of a `CachedFile`.
pub struct CachedFileView {
    pub file_name: Option<Seq<char>>,
    pub parent_name: Option<Seq<char>>,
}

impl View for CachedFile {
    type V = CachedFileView;

    open spec fn view(&self) -> CachedFileView {
        CachedFileView {
            file_name: opt_view(self.file_name),
            parent_name: opt_view(self.parent_name),
        }
    }
}

/// The title id whose cached icon a file is: the name of its directory,
/// where that is a title id and the file is a JPEG or PNG by its name.
pub open spec fn cached_icon_title(file: CachedFileView) -> Option<Seq<char>> {
    match (file.file_name, file.parent_name) {
        (Some(name), Some(dir)) => if (ends_with_seq(name, ".jpg"@) || ends_with_seq(
            name,
            ".png"@,
        )) && is_title_id(dir) {
            Some(dir)
        } else {
            None
        },
        _ => None,
    }
}

/// The downloads directory below `home`.
pub fn downloads_dir(home: &str, windows: bool) -> (dir: String)
    ensures
        dir@ == join_spec(home@, "Downloads"@, windows),
{
    join(home, "Downloads", windows)
}

/// The directories in which yuzu keeps or users keep games, below `home`.
pub fn yuzu_static_dirs(home: &str, windows: bool) -> (dirs: Vec<String>)
    ensures
        views(dirs@) == yuzu_static_dirs_spec(home@, windows),
{
    let mut dirs: Vec<String> = Vec::new();
    dirs.push(join(home, ".local/share/yuzu/load", windows));
    dirs.push(join(home, "AppData/Roaming/yuzu/load", windows));
    dirs.push(join(home, "AppData/Roaming/yuzu/nand/user/Contents/registered", windows));
    dirs.push(join(home, "Library/Application Support/yuzu/load", windows));
    dirs.push(join(home, "Documents/Yuzu/games", windows));
    dirs.push(join(home, "Games/Switch", windows));
    dirs.push(join(home, "Games/Yuzu", windows));
    dirs.push(join(home, "Downloads", windows));
    dirs.push(join(home, "Downloads/Switch", windows));
    assert(views(dirs@) =~= yuzu_static_dirs_spec(home@, windows));
    dirs
}

/// Whether a walked file is a configuration file of yuzu.
pub fn is_yuzu_config_file(file: &WalkedFile) -> (r: bool)
    ensures
        r == is_yuzu_config(file@),
{
    if !file.is_file {
        return false;
    }
    match &file.file_name {
        Some(name) => {
            let wanted = to_chars("qt-config.ini");
            let lowered = lower_chars(&to_chars(name.as_str()));
            if !chars_eq(&lowered, &wanted) {
                return false;
            }
            let path = lower_chars(&to_chars(file.path.as_str()));
            contains_chars(&path, &to_chars("yuzu"))
        },
        None => false,
    }
}

/// The configuration files of yuzu to read: the three places of a standard
/// install below `home`, then those that the walk of the downloads directory
/// came across.
pub fn find_yuzu_config_paths(home: &str, walked: &Vec<WalkedFile>, windows: bool) -> (paths: Vec<String>)
    ensures
        views(paths@) == yuzu_config_candidates(home@, windows) + config_paths_in(walked@),
{
    let mut paths: Vec<String> = Vec::new();
    paths.push(join(home, "AppData/Roaming/yuzu/qt-config.ini", windows));
    paths.push(join(home, ".local/share/yuzu/qt-config.ini", windows));
    paths.push(join(home, "Library/Application Support/yuzu/qt-config.ini", windows));
    assert(views(paths@) =~= yuzu_config_candidates(home@, windows));
    let mut i: usize = 0;
    while i < walked.len()
        invariant
            i <= walked.len(),
            views(paths@) == yuzu_config_candidates(home@, windows) + config_paths_in(
                walked@.take(i as int),
            ),
        decreases walked.len() - i,
    {
        let ghost before = views(paths@);
        assert(walked@.take(i + 1).drop_last() == walked@.take(i as int));
        assert(walked@.take(i + 1).last() == walked@[i as int]);
        if is_yuzu_config_file(&walked[i]) {
            paths.push(walked[i].path.clone());
            assert(views(paths@) =~= before.push(walked@[i as int].path@));
        }
        i += 1;
    }
    assert(walked@.take(walked.len() as int) == walked@);
    paths
}

/// Adds the texts of `more` to `all`.
fn push_all(all: &mut Vec<String>, more: &Vec<String>)
    ensures
        views(final(all)@) == views(old(all)@) + views(more@),
{
    let mut i: usize = 0;
    while i < more.len()
        invariant
            i <= more.len(),
            views(all@) == views(old(all)@) + views(more@).take(i as int),
        decreases more.len() - i,
    {
        let ghost before = views(all@);
        all.push(more[i].clone());
        assert(views(all@) =~= before.push(more@[i as int]@));
        i += 1;
        assert(views(all@) =~= views(old(all)@) + views(more@).take(i as int));
    }
    assert(views(more@).take(more.len() as int) == views(more@));
}

/// The directories that one configuration file adds.
pub fn config_file_dirs(config: &ConfigFile, windows: bool) -> (dirs: Vec<String>)
    ensures
        views(dirs@) == config_dirs(config@, windows),
{
    let mut dirs = match &config.contents {
        Some(text) => read_yuzu_game_dirs_from_config(Some(text.as_str())),
        None => read_yuzu_game_dirs_from_config(None),
    };
    let ghost declared = views(dirs@);
    match &config.user_dir {
        Some(dir) => {
            dirs.push(join(dir.as_str(), "load", windows));
            dirs.push(join(dir.as_str(), "nand/user/Contents/registered", windows));
            assert(views(dirs@) =~= declared + portable_dirs(config@.user_dir, windows));
        },
        None => {
            assert(views(dirs@) =~= declared + portable_dirs(config@.user_dir, windows));
        },
    }
    dirs
}

/// The directories to walk for games of yuzu: those below `home` and those
/// that the configuration files add, in path order and each path once.
pub fn yuzu_search_dirs(home: &str, configs: &Vec<ConfigFile>, windows: bool) -> (dirs: Vec<String>)
    ensures
        sorted_paths_of(views(dirs@), yuzu_candidates(home@, configs@, windows), windows),
{
    let mut all = yuzu_static_dirs(home, windows);
    let mut i: usize = 0;
    while i < configs.len()
        invariant
            i <= configs.len(),
            views(all@) == yuzu_static_dirs_spec(home@, windows) + all_config_dirs(configs@.take(i as int), windows),
        decreases configs.len() - i,
    {
        assert(configs@.take(i + 1).drop_last() == configs@.take(i as int));
        assert(configs@.take(i + 1).last() == configs@[i as int]);
        let more = config_file_dirs(&configs[i], windows);
        push_all(&mut all, &more);
        i += 1;
        assert(views(all@) =~= yuzu_static_dirs_spec(home@, windows) + all_config_dirs(
            configs@.take(i as int), windows,
        ));
    }
    assert(configs@.take(configs.len() as int) == configs@);
    sorted_unique(&all, windows)
}

/// The configuration directories of Ryujinx below `home`.
pub fn ryujinx_config_roots(home: &str, windows: bool) -> (roots: Vec<String>)
    ensures
        views(roots@) == ryujinx_config_roots_spec(home@, windows),
{
    let mut roots: Vec<String> = Vec::new();
    roots.push(join(home, ".config/Ryujinx", windows));
    roots.push(join(home, "AppData/Roaming/Ryujinx", windows));
    roots.push(join(home, "Library/Application Support/Ryujinx", windows));
    assert(views(roots@) =~= ryujinx_config_roots_spec(home@, windows));
    roots
}

/// The games directory below a configuration directory of Ryujinx.
pub fn ryujinx_games_dir(root: &str, windows: bool) -> (dir: String)
    ensures
        dir@ == ryujinx_games_dir_spec(root@, windows),
{
    join(root, "games", windows)
}

/// The icon cache below a configuration directory of Ryujinx.
pub fn ryujinx_icon_cache_dir(root: &str, windows: bool) -> (dir: String)
    ensures
        dir@ == ryujinx_icon_cache_dir_spec(root@, windows),
{
    join(root, "bis/user/save/0000000000000000/0000000000000000/cache", windows)
}

/// The directories to walk for games of Ryujinx, in path order and each
/// path once.
pub fn ryujinx_search_dirs(home: &str, windows: bool) -> (dirs: Vec<String>)
    ensures
        sorted_paths_of(views(dirs@), ryujinx_candidates(home@, windows), windows),
{
    let roots = ryujinx_config_roots(home, windows);
    assert(views(roots@).len() == 3);
    assert(views(roots@)[0] == roots@[0]@ && views(roots@)[1] == roots@[1]@ && views(roots@)[2]
        == roots@[2]@);
    let mut all: Vec<String> = Vec::new();
    all.push(ryujinx_games_dir(roots[0].as_str(), windows));
    all.push(ryujinx_games_dir(roots[1].as_str(), windows));
    all.push(ryujinx_games_dir(roots[2].as_str(), windows));
    all.push(String::from_str("C:/Ryujinx/games"));
    all.push(join(home, "Ryujinx/games", windows));
    assert(views(all@) =~= ryujinx_candidates(home@, windows));
    sorted_unique(&all, windows)
}

/// Every directory that may hold games of `emulator`, before sorting. The
/// configuration files count for yuzu alone.
pub open spec fn candidates(home: Seq<char>, emulator: Emulator, configs: Seq<ConfigFile>, windows: bool) -> Seq<
    Seq<char>,
> {
    match emulator {
        Emulator::Yuzu => yuzu_candidates(home, configs, windows),
        Emulator::Ryujinx => ryujinx_candidates(home, windows),
    }
}

/// The directories to walk for games of `emulator`, in path order and each
/// path once. Whether a directory exists is for the walk to find out.
pub fn probe(home: &str, emulator: Emulator, configs: &Vec<ConfigFile>, windows: bool) -> (dirs: Vec<String>)
    ensures
        sorted_paths_of(views(dirs@), candidates(home@, emulator, configs@, windows), windows),
{
    match emulator {
        Emulator::Yuzu => yuzu_search_dirs(home, configs, windows),
        Emulator::Ryujinx => ryujinx_search_dirs(home, windows),
    }
}

/// The title id whose cached icon `file` is, by its names.
pub fn cached_icon_title_id(file: &CachedFile) -> (id: Option<String>)
    ensures
        opt_view(id) == cached_icon_title(file@),
{
    match (&file.file_name, &file.parent_name) {
        (Some(name), Some(dir)) => {
            let chars = to_chars(name.as_str());
            let image = ends_with_chars(&chars, &to_chars(".jpg")) || ends_with_chars(
                &chars,
                &to_chars(".png"),
            );
            if image && is_title_id_chars(&to_chars(dir.as_str())) {
                Some(dir.clone())
            } else {
                None
            }
        },
        _ => None,
    }
}

} // verus!
