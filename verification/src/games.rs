//! The catalog of games and the session that fills it.
//!
//! A `GameScanner` holds the entries found so far, in the order in which
//! they were found, and the paths that scans have already recorded. Scans
//! record each path once; a manual add always appends.

use crate::icon::{
    choose_icon, default_icon, placeholder_icon, resolve_icon, title_id_icon, title_id_icon_url,
};
use crate::identity::{assign_id, spec_assign_id};
use crate::paths::{opt_view, GamePath, GamePathView};
use crate::text::str_eq;
pub use crate::launch::launch_game;
use vstd::prelude::*;
use vstd::string::StringExecFns;

verus! {

/// The emulators whose games are catalogued.
#[derive(Clone, Copy, PartialEq, Eq, Structural, Debug)]
pub enum Emulator {
    Yuzu,
    Ryujinx,
}

/// The tag that entries of an emulator carry.
pub open spec fn emulator_tag(emulator: Emulator) -> Seq<char> {
    match emulator {
        Emulator::Yuzu => "yuzu"@,
        Emulator::Ryujinx => "ryujinx"@,
    }
}

/// The emulator that a tag names.
pub open spec fn emulator_of_tag(tag: Seq<char>) -> Option<Emulator> {
    if tag == "yuzu"@ {
        Some(Emulator::Yuzu)
    } else if tag == "ryujinx"@ {
        Some(Emulator::Ryujinx)
    } else {
        None
    }
}

impl Emulator {
    /// The tag that entries of this emulator carry.
    pub fn tag(&self) -> (tag: &'static str)
        ensures
            tag@ == emulator_tag(*self),
    {
        match self {
            Emulator::Yuzu => "yuzu",
            Emulator::Ryujinx => "ryujinx",
        }
    }

    /// The emulator that `tag` names, or `None` for any other tag.
    pub fn from_tag(tag: &str) -> (emulator: Option<Emulator>)
        ensures
            emulator == emulator_of_tag(tag@),
    {
        if str_eq(tag, "yuzu") {
            Some(Emulator::Yuzu)
        } else if str_eq(tag, "ryujinx") {
            Some(Emulator::Ryujinx)
        } else {
            None
        }
    }
}

/// The tag of an emulator names that emulator.
pub proof fn lemma_tag_names_emulator(emulator: Emulator)
    ensures
        emulator_of_tag(emulator_tag(emulator)) == Some(emulator),
{
    reveal_strlit("yuzu");
    reveal_strlit("ryujinx");
    assert("yuzu"@.len() != "ryujinx"@.len());
}

/// One game of the catalog.
#[derive(Debug)]
pub struct Game {
    /// The fingerprint of `path`.
    pub id: String,
    /// The name to show.
    pub title: String,
    /// The path of the game file.
    pub path: String,
    /// A `data:` URI or an address of an image.
    pub icon: Option<String>,
    /// The tag of the emulator that runs the game.
    pub emulator: String,
}

/// The mathematical value of a `Game`.
pub struct GameView {
    pub id: Seq<char>,
    pub title: Seq<char>,
    pub path: Seq<char>,
    pub icon: Option<Seq<char>>,
    pub emulator: Seq<char>,
}

impl View for Game {
    type V = GameView;

    open spec fn view(&self) -> GameView {
        GameView {
            id: self.id@,
            title: self.title@,
            path: self.path@,
            icon: opt_view(self.icon),
            emulator: self.emulator@,
        }
    }
}

impl Clone for Game {
    fn clone(&self) -> (copy: Game)
        ensures
            copy == *self,
    {
        Game {
            id: self.id.clone(),
            title: self.title.clone(),
            path: self.path.clone(),
            icon: match &self.icon {
                Some(icon) => Some(icon.clone()),
                None => None,
            },
            emulator: self.emulator.clone(),
        }
    }
}

/// The values of a sequence of games, in order.
pub open spec fn game_views(games: Seq<Game>) -> Seq<GameView> {
    Seq::new(games.len(), |i: int| games[i]@)
}

/// A file that a walk found, with the local image that was found for it.
pub struct FoundFile {
    /// The file.
    pub path: GamePath,
    /// The image beside the file, as a `data:` URI. It is read only where
    /// the file is recorded.
    pub local_icon: Option<String>,
}

/// The mathematical value of a `FoundFile`.
pub struct FoundFileView {
    pub path: GamePathView,
    pub local_icon: Option<Seq<char>>,
}

impl View for FoundFile {
    type V = FoundFileView;

    open spec fn view(&self) -> FoundFileView {
        FoundFileView { path: self.path@, local_icon: opt_view(self.local_icon) }
    }
}

/// An extension of a game file. The case of the letters counts.
pub open spec fn is_rom_extension(ext: Seq<char>) -> bool {
    ext == "nsp"@ || ext == "xci"@ || ext == "nca"@ || ext == "nro"@
}

/// A path is that of a game file: it has one of the game extensions, and a
/// stem to name the game by.
pub open spec fn is_rom(path: GamePathView) -> bool {
    &&& path.extension matches Some(ext)
    &&& is_rom_extension(ext)
    &&& path.stem is Some
}

/// The entry that a scan makes for a game file.
pub open spec fn scanned_entry(file: FoundFileView, emulator: Seq<char>) -> GameView {
    GameView {
        id: spec_assign_id(file.path.path),
        title: file.path.stem->0,
        path: file.path.path,
        icon: Some(choose_icon(file.local_icon, file.path.file_name)),
        emulator,
    }
}

/// The entry that a manual add makes.
pub open spec fn manual_entry(
    title: Seq<char>,
    path: GamePathView,
    local_icon: Option<Seq<char>>,
    emulator: Seq<char>,
) -> GameView {
    GameView {
        id: spec_assign_id(path.path),
        title,
        path: path.path,
        icon: Some(choose_icon(local_icon, path.file_name)),
        emulator,
    }
}

/// The mathematical value of a `GameScanner`: the entries in the order in
/// which they were made, and the paths that scans have recorded.
pub struct Session {
    pub entries: Seq<GameView>,
    pub seen: Set<Seq<char>>,
}

impl Session {
    /// The session without entries.
    pub open spec fn empty() -> Session {
        Session { entries: Seq::empty(), seen: Set::empty() }
    }

    /// A scan records this path: it is that of a game file, and no scan has
    /// recorded it before.
    pub open spec fn wants(self, path: GamePathView) -> bool {
        is_rom(path) && !self.seen.contains(path.path)
    }

    /// The session after a scan came across `file`.
    pub open spec fn record(self, file: FoundFileView, emulator: Seq<char>) -> Session {
        if self.wants(file.path) {
            Session {
                entries: self.entries.push(scanned_entry(file, emulator)),
                seen: self.seen.insert(file.path.path),
            }
        } else {
            self
        }
    }

    /// The session after a scan came across `files`, one after the other.
    pub open spec fn scan(self, files: Seq<FoundFile>, emulator: Seq<char>) -> Session
        decreases files.len(),
    {
        if files.len() == 0 {
            self
        } else {
            self.scan(files.drop_last(), emulator).record(files.last()@, emulator)
        }
    }

    /// The session after a manual add. The recorded paths stay as they are.
    pub open spec fn add(self, entry: GameView) -> Session {
        Session { entries: self.entries.push(entry), seen: self.seen }
    }

    /// No two entries have the same path.
    pub open spec fn distinct_paths(self) -> bool {
        forall|i: int, j: int|
            0 <= i < j < self.entries.len() ==> (#[trigger] self.entries[i]).path != (
            #[trigger] self.entries[j]).path
    }

    /// The path of every entry is recorded.
    pub open spec fn recorded(self) -> bool {
        forall|i: int| 0 <= i < self.entries.len() ==> self.seen.contains(
            (#[trigger] self.entries[i]).path,
        )
    }

    /// What holds of a session that scans alone have made: no two entries
    /// have the same path, and the path of every entry is recorded. A manual
    /// add may break it.
    pub open spec fn scanned_only(self) -> bool {
        self.distinct_paths() && self.recorded()
    }
}

/// A scan step keeps a session that scans alone have made free of entries
/// with the same path.
pub proof fn lemma_record_keeps_paths_distinct(s: Session, file: FoundFileView, emulator: Seq<char>)
    requires
        s.scanned_only(),
    ensures
        s.record(file, emulator).scanned_only(),
{
    let t = s.record(file, emulator);
    if s.wants(file.path) {
        assert forall|i: int, j: int| 0 <= i < j < t.entries.len() implies (
        #[trigger] t.entries[i]).path != (#[trigger] t.entries[j]).path by {
            if j == s.entries.len() {
                assert(s.seen.contains(s.entries[i].path));
            } else {
                assert(s.entries[i].path != s.entries[j].path);
            }
        }
        assert forall|i: int| 0 <= i < t.entries.len() implies t.seen.contains(
            (#[trigger] t.entries[i]).path,
        ) by {
            if i < s.entries.len() {
                assert(s.seen.contains(s.entries[i].path));
            }
        }
    }
}

/// A scan keeps a session that scans alone have made free of entries with
/// the same path.
pub proof fn lemma_scan_keeps_paths_distinct(s: Session, files: Seq<FoundFile>, emulator: Seq<char>)
    requires
        s.scanned_only(),
    ensures
        s.scan(files, emulator).scanned_only(),
    decreases files.len(),
{
    if files.len() > 0 {
        lemma_scan_keeps_paths_distinct(s, files.drop_last(), emulator);
        lemma_record_keeps_paths_distinct(
            s.scan(files.drop_last(), emulator),
            files.last()@,
            emulator,
        );
    }
}

/// One scan: what it came across, and the tag of the emulator it ran for.
pub struct Scan {
    pub files: Seq<FoundFile>,
    pub emulator: Seq<char>,
}

impl Session {
    /// The session after the scans of `scans`, one after the other.
    pub open spec fn scans(self, scans: Seq<Scan>) -> Session
        decreases scans.len(),
    {
        if scans.len() == 0 {
            self
        } else {
            self.scans(scans.drop_last()).scan(scans.last().files, scans.last().emulator)
        }
    }
}

/// After any number of scans of an empty session, whatever they came across
/// and for whichever emulators, no two entries have the same path.
pub proof fn lemma_scans_never_duplicate(scans: Seq<Scan>)
    ensures
        Session::empty().scans(scans).scanned_only(),
        Session::empty().scans(scans).distinct_paths(),
    decreases scans.len(),
{
    if scans.len() > 0 {
        lemma_scans_never_duplicate(scans.drop_last());
        lemma_scan_keeps_paths_distinct(
            Session::empty().scans(scans.drop_last()),
            scans.last().files,
            scans.last().emulator,
        );
    }
}

/// The games of an empty session, as `get_games` hands them out after
/// `new` or `reset`, are an empty sequence.
pub proof fn lemma_empty_session_has_no_games(games: Seq<Game>)
    requires
        game_views(games) == Session::empty().entries,
    ensures
        games.len() == 0,
{
    assert(game_views(games).len() == games.len());
}

/// A scan only adds to the recorded paths, and records the path of every
/// game file that it came across.
pub proof fn lemma_scan_records(s: Session, files: Seq<FoundFile>, emulator: Seq<char>)
    ensures
        s.seen.subset_of(s.scan(files, emulator).seen),
        forall|i: int|
            0 <= i < files.len() && is_rom((#[trigger] files[i])@.path) ==> s.scan(
                files,
                emulator,
            ).seen.contains(files[i]@.path.path),
    decreases files.len(),
{
    if files.len() > 0 {
        let before = files.drop_last();
        lemma_scan_records(s, before, emulator);
        assert forall|i: int| 0 <= i < files.len() && is_rom((#[trigger] files[i])@.path) implies s.scan(
            files,
            emulator,
        ).seen.contains(files[i]@.path.path) by {
            if i < before.len() {
                assert(before[i] == files[i]);
            }
        }
    }
}

/// A scan that comes across nothing but what is recorded, or what is no
/// game file, changes nothing.
pub proof fn lemma_scan_of_recorded_is_idle(s: Session, files: Seq<FoundFile>, emulator: Seq<char>)
    requires
        forall|i: int|
            0 <= i < files.len() && is_rom((#[trigger] files[i])@.path) ==> s.seen.contains(
                files[i]@.path.path,
            ),
    ensures
        s.scan(files, emulator) == s,
    decreases files.len(),
{
    if files.len() > 0 {
        let before = files.drop_last();
        assert forall|i: int| 0 <= i < before.len() && is_rom(
            (#[trigger] before[i])@.path,
        ) implies s.seen.contains(before[i]@.path.path) by {
            assert(before[i] == files[i]);
        }
        lemma_scan_of_recorded_is_idle(s, before, emulator);
        assert(files.last() == files[files.len() - 1]);
    }
}

/// The same scan run twice leaves what it left the first time: the second
/// run adds no entry. This holds whatever images the second run found and
/// whichever emulator it ran for.
pub proof fn lemma_rescan_is_idle(
    s: Session,
    files: Seq<FoundFile>,
    emulator: Seq<char>,
    again: Seq<FoundFile>,
    again_emulator: Seq<char>,
)
    requires
        again.len() == files.len(),
        forall|i: int| 0 <= i < files.len() ==> (#[trigger] again[i])@.path == files[i]@.path,
    ensures
        s.scan(files, emulator).scan(again, again_emulator) == s.scan(files, emulator),
        s.scan(files, emulator).scan(files, emulator) == s.scan(files, emulator),
{
    let t = s.scan(files, emulator);
    lemma_scan_records(s, files, emulator);
    assert forall|i: int| 0 <= i < again.len() && is_rom(
        (#[trigger] again[i])@.path,
    ) implies t.seen.contains(again[i]@.path.path) by {
        assert(is_rom(files[i]@.path));
    }
    lemma_scan_of_recorded_is_idle(t, again, again_emulator);
    lemma_scan_of_recorded_is_idle(t, files, emulator);
}

/// A session: the catalog and the paths that scans have recorded.
#[derive(Debug)]
pub struct GameScanner {
    /// The entries, in the order in which they were made.
    pub games: Vec<Game>,
    seen_paths: Vec<String>,
}

impl View for GameScanner {
    type V = Session;

    closed spec fn view(&self) -> Session {
        Session {
            entries: game_views(self.games@),
            seen: Set::new(
                |p: Seq<char>|
                    exists|i: int|
                        0 <= i < self.seen_paths@.len() && #[trigger] self.seen_paths@[i]@ == p,
            ),
        }
    }
}

impl GameScanner {

    /// No path is recorded twice.
    pub closed spec fn wf(&self) -> bool {
        forall|i: int, j: int|
            0 <= i < j < self.seen_paths@.len() ==> #[trigger] self.seen_paths@[i]@
                != #[trigger] self.seen_paths@[j]@
    }

    /// A session without entries.
    pub fn new() -> (scanner: GameScanner)
        ensures
            scanner@ == Session::empty(),
            scanner@.scanned_only(),
            scanner.wf(),
    {
        let scanner = GameScanner { games: Vec::new(), seen_paths: Vec::new() };
        assert(scanner@.entries =~= Seq::empty());
        assert(scanner@.seen =~= Set::empty());
        scanner
    }

    /// Forgets every entry and every recorded path.
    pub fn reset(&mut self)
        ensures
            final(self)@ == Session::empty(),
            final(self)@.scanned_only(),
            final(self).wf(),
    {
        self.games.clear();
        self.seen_paths.clear();
        assert(self@.entries =~= Seq::empty());
        assert(self@.seen =~= Set::empty());
    }

    /// A copy of the entries, in session order.
    pub fn get_games(&self) -> (games: Vec<Game>)
        ensures
            game_views(games@) == self@.entries,
    {
        let mut games: Vec<Game> = Vec::new();
        let mut i: usize = 0;
        while i < self.games.len()
            invariant
                i <= self.games.len(),
                games@ == self.games@.take(i as int),
            decreases self.games.len() - i,
        {
            games.push(self.games[i].clone());
            i += 1;
        }
        assert(self.games@.take(self.games.len() as int) == self.games@);
        games
    }

    /// Whether a scan has recorded `path`.
    pub fn has_seen(&self, path: &str) -> (r: bool)
        ensures
            r == self@.seen.contains(path@),
    {
        let wanted = path.to_owned();
        let mut i: usize = 0;
        while i < self.seen_paths.len()
            invariant
                i <= self.seen_paths.len(),
                wanted@ == path@,
                forall|k: int| 0 <= k < i ==> #[trigger] self.seen_paths@[k]@ != path@,
            decreases self.seen_paths.len() - i,
        {
            if self.seen_paths[i] == wanted {
                return true;
            }
            i += 1;
        }
        false
    }

    /// Whether a scan that comes across `path` records it: it is a game file
    /// that no scan has recorded. Only for such a file is the local image
    /// looked at.
    pub fn is_new_rom(&self, path: &GamePath) -> (r: bool)
        ensures
            r == self@.wants(path@),
    {
        is_rom_path(path) && !self.has_seen(path.path.as_str())
    }

    /// Records `file` as a game of `emulator`, unless it is no game file or
    /// a scan has recorded its path before.
    pub fn record(&mut self, file: &FoundFile, emulator: Emulator)
        ensures
            final(self)@ == old(self)@.record(file@, emulator_tag(emulator)),
            old(self)@.scanned_only() ==> final(self)@.scanned_only(),
            old(self).wf() ==> final(self).wf(),
    {
        proof {
            if self@.scanned_only() {
                lemma_record_keeps_paths_distinct(self@, file@, emulator_tag(emulator));
            }
        }
        if !self.is_new_rom(&file.path) {
            return ;
        }
        let ghost before = self.seen_paths@;
        let ghost entries = self@.entries;
        let path = file.path.path.clone();
        self.seen_paths.push(path.clone());
        let title = match &file.path.stem {
            Some(stem) => stem.clone(),
            None => String::new(),
        };
        let id = assign_id(path.as_str());
        let local = match &file.local_icon {
            Some(uri) => Some(uri.clone()),
            None => None,
        };
        let icon = resolve_icon(local, &file.path);
        let game = Game { id, title, path, icon, emulator: String::from_str(emulator.tag()) };
        self.games.push(game);
        proof {
            assert(self@.entries =~= entries.push(scanned_entry(file@, emulator_tag(emulator))));
            assert(self.seen_paths@ == before.push(file.path.path));
            assert forall|p: Seq<char>| self@.seen.contains(p) <==> (old(self)@.seen.contains(p)
                || p == file@.path.path) by {
                if self@.seen.contains(p) {
                    let i = choose|i: int|
                        0 <= i < self.seen_paths@.len() && #[trigger] self.seen_paths@[i]@ == p;
                    if i < before.len() {
                        assert(before[i]@ == p);
                    }
                }
                if old(self)@.seen.contains(p) {
                    let i = choose|i: int| 0 <= i < before.len() && #[trigger] before[i]@ == p;
                    assert(self.seen_paths@[i]@ == p);
                }
                if p == file@.path.path {
                    assert(self.seen_paths@[before.len() as int]@ == p);
                }
            }
            assert(self@.seen =~= old(self)@.seen.insert(file@.path.path));
            if old(self).wf() {
                assert forall|i: int, j: int|
                    0 <= i < j < self.seen_paths@.len() implies #[trigger] self.seen_paths@[i]@
                    != #[trigger] self.seen_paths@[j]@ by {
                    if j == before.len() {
                        assert(before[i]@ == self.seen_paths@[i]@);
                    } else {
                        assert(before[i]@ != before[j]@);
                    }
                }
            }
        }
    }

    /// Records the files of one walk, in the order of the walk, as games of
    /// `emulator`.
    pub fn scan_directory(&mut self, files: &Vec<FoundFile>, emulator: Emulator) -> (done: Result<
        (),
        String,
    >)
        ensures
            done is Ok,
            final(self)@ == old(self)@.scan(files@, emulator_tag(emulator)),
            old(self)@.scanned_only() ==> final(self)@.scanned_only(),
            old(self).wf() ==> final(self).wf(),
    {
        proof {
            if self@.scanned_only() {
                lemma_scan_keeps_paths_distinct(self@, files@, emulator_tag(emulator));
            }
        }
        let mut i: usize = 0;
        while i < files.len()
            invariant
                i <= files.len(),
                self@ == old(self)@.scan(files@.take(i as int), emulator_tag(emulator)),
                old(self).wf() ==> self.wf(),
            decreases files.len() - i,
        {
            assert(files@.take(i + 1).drop_last() == files@.take(i as int));
            assert(files@.take(i + 1).last() == files@[i as int]);
            self.record(&files[i], emulator);
            i += 1;
        }
        assert(files@.take(files.len() as int) == files@);
        Ok(())
    }

    /// Records what the walks of yuzu's directories found.
    pub fn scan_yuzu(&mut self, files: &Vec<FoundFile>) -> (done: Result<(), String>)
        ensures
            done is Ok,
            final(self)@ == old(self)@.scan(files@, "yuzu"@),
            old(self)@.scanned_only() ==> final(self)@.scanned_only(),
            old(self).wf() ==> final(self).wf(),
    {
        self.scan_directory(files, Emulator::Yuzu)
    }

    /// Records what the walks of Ryujinx's directories found.
    pub fn scan_ryujinx(&mut self, files: &Vec<FoundFile>) -> (done: Result<(), String>)
        ensures
            done is Ok,
            final(self)@ == old(self)@.scan(files@, "ryujinx"@),
            old(self)@.scanned_only() ==> final(self)@.scanned_only(),
            old(self).wf() ==> final(self).wf(),
    {
        self.scan_directory(files, Emulator::Ryujinx)
    }

    /// The remote icon that the title id in the file name of `game_path`
    /// leads to: `https://tinfoil.media/ti/<ID>/512/512` for the first run of
    /// 16 hexadecimal digits that stands between characters that are neither
    /// letters nor digits, upper-cased; `None` where the name has no such
    /// run.
    pub fn extract_title_id_and_fetch_icon(&self, game_path: &GamePath) -> (icon: Option<String>)
        ensures
            opt_view(icon) == title_id_icon(game_path@.file_name),
    {
        title_id_icon_url(game_path)
    }

    /// The placeholder image.
    pub fn get_default_icon(&self) -> (icon: Option<String>)
        ensures
            opt_view(icon) == Some(placeholder_icon()),
    {
        Some(default_icon())
    }

    /// Adds a game by hand. Where the file does not exist the session stays
    /// as it is; else the entry is appended, whether or not an entry with
    /// its path is there already, and handed back.
    pub fn add_game(
        &mut self,
        title: String,
        path: GamePath,
        emulator: String,
        exists: bool,
        local_icon: Option<String>,
    ) -> (added: Result<Game, String>)
        ensures
            !exists ==> added is Err && added->Err_0@ == "path does not exist"@ && *final(self)
                == *old(self),
            exists ==> added is Ok && added->Ok_0@ == manual_entry(
                title@,
                path@,
                opt_view(local_icon),
                emulator@,
            ) && final(self)@ == old(self)@.add(added->Ok_0@),
            old(self).wf() ==> final(self).wf(),
    {
        if !exists {
            return Err(String::from_str("path does not exist"));
        }
        let ghost entries = self@.entries;
        let id = assign_id(path.path.as_str());
        let icon = resolve_icon(local_icon, &path);
        let game = Game { id, title, path: path.path, icon, emulator };
        self.games.push(game.clone());
        assert(self@.entries =~= entries.push(game@));
        Ok(game)
    }
}

/// Whether `ext` is an extension of a game file.
pub fn is_rom_extension_str(ext: &str) -> (r: bool)
    ensures
        r == is_rom_extension(ext@),
{
    str_eq(ext, "nsp") || str_eq(ext, "xci") || str_eq(ext, "nca") || str_eq(ext, "nro")
}

/// Whether `path` is that of a game file.
pub fn is_rom_path(path: &GamePath) -> (r: bool)
    ensures
        r == is_rom(path@),
{
    match &path.extension {
        Some(ext) => is_rom_extension_str(ext.as_str()) && path.stem.is_some(),
        None => false,
    }
}

} // verus!
