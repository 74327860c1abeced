//! The search for an image beside a game file, as a state machine.
//!
//! The search asks for one file or directory at a time. Whoever runs it
//! looks at the disk, answers with `step`, and asks again until the request
//! is `Finished`. First the icon names are tried in the directory of the game
//! file; then, where a directory named after the game lies beside it, in
//! that directory. The first file that can be read ends the search.

use crate::icon::{
    data_uri, data_uri_spec, fits_base64, icon_is_png, icon_name, icon_name_str, FOLDER_ICONS,
    SIBLING_ICONS,
};
use crate::paths::{join, join_spec, opt_view, GamePath};
use vstd::prelude::*;

verus! {

/// How far a search has come.
#[derive(Clone, Copy, PartialEq, Eq, Structural, Debug)]
pub enum IconStage {
    /// The icon name of this index is next, beside the game file.
    Sibling(usize),
    /// The directory named after the game is next.
    Folder,
    /// The icon name of this index is next, in the directory named after the
    /// game.
    InFolder(usize),
    /// The search is over.
    Done,
}

/// What a search asks of whoever runs it.
pub enum IconRequest {
    /// Read the file at this path.
    ReadFile(String),
    /// Say whether this path is a directory.
    IsDir(String),
    /// Nothing more: the search ended with this image, or with none.
    Finished(Option<String>),
}

/// The mathematical value of an `IconRequest`.
pub enum IconRequestView {
    ReadFile(Seq<char>),
    IsDir(Seq<char>),
    Finished(Option<Seq<char>>),
}

impl View for IconRequest {
    type V = IconRequestView;

    open spec fn view(&self) -> IconRequestView {
        match self {
            IconRequest::ReadFile(p) => IconRequestView::ReadFile(p@),
            IconRequest::IsDir(p) => IconRequestView::IsDir(p@),
            IconRequest::Finished(icon) => IconRequestView::Finished(opt_view(*icon)),
        }
    }
}

/// The answer to a request.
pub enum IconReply {
    /// The bytes of the file, or `None` where it is missing or unreadable.
    File(Option<Vec<u8>>),
    /// Whether the path is a directory.
    Dir(bool),
}

/// The mathematical value of an `IconReply`.
pub enum IconReplyView {
    File(Option<Seq<u8>>),
    Dir(bool),
}

impl View for IconReply {
    type V = IconReplyView;

    open spec fn view(&self) -> IconReplyView {
        match self {
            IconReply::File(Some(data)) => IconReplyView::File(Some(data@)),
            IconReply::File(None) => IconReplyView::File(None),
            IconReply::Dir(b) => IconReplyView::Dir(*b),
        }
    }
}

/// The mathematical value of an `IconSearch`.
pub struct IconSearchView {
    /// The directory of the game file.
    pub parent: Option<Seq<char>>,
    /// The game file's name without extension.
    pub stem: Option<Seq<char>>,
    /// How far the search has come.
    pub stage: IconStage,
    /// The image that was found.
    pub found: Option<Seq<char>>,
    /// Whether paths are joined as on Windows.
    pub windows: bool,
}

impl IconSearchView {
    /// The state is one that a search can be in.
    pub open spec fn wf(self) -> bool {
        match self.stage {
            IconStage::Sibling(k) => k < 6 && self.parent is Some && self.found is None,
            IconStage::Folder => self.parent is Some && self.stem is Some && self.found is None,
            IconStage::InFolder(k) => k < 4 && self.parent is Some && self.stem is Some
                && self.found is None,
            IconStage::Done => true,
        }
    }

    /// The state in which a search begins: at the first icon name beside the
    /// game file, or over at once where the path has no parent.
    pub open spec fn start(
        parent: Option<Seq<char>>,
        stem: Option<Seq<char>>,
        windows: bool,
    ) -> IconSearchView {
        IconSearchView {
            parent,
            stem,
            windows,
            stage: if parent is Some {
                IconStage::Sibling(0)
            } else {
                IconStage::Done
            },
            found: None,
        }
    }

    /// The directory named after the game.
    pub open spec fn folder(self) -> Seq<char> {
        join_spec(self.parent->0, self.stem->0, self.windows)
    }

    /// What the search asks in this state.
    pub open spec fn request(self) -> IconRequestView {
        match self.stage {
            IconStage::Sibling(k) => IconRequestView::ReadFile(
                join_spec(self.parent->0, icon_name(k as int), self.windows),
            ),
            IconStage::Folder => IconRequestView::IsDir(self.folder()),
            IconStage::InFolder(k) => IconRequestView::ReadFile(
                join_spec(self.folder(), icon_name(k as int), self.windows),
            ),
            IconStage::Done => IconRequestView::Finished(self.found),
        }
    }

    /// The state with another stage.
    pub open spec fn at(self, stage: IconStage) -> IconSearchView {
        IconSearchView { stage, ..self }
    }

    /// The state of a search that ended with the image `data` under the icon
    /// name of index `k`.
    pub open spec fn ended_with(self, k: usize, data: Seq<u8>) -> IconSearchView {
        IconSearchView {
            stage: IconStage::Done,
            found: Some(data_uri_spec(icon_is_png(k as int), data)),
            ..self
        }
    }

    /// The state after a reply. A reply of the kind that was not asked for
    /// changes nothing.
    pub open spec fn step(self, reply: IconReplyView) -> IconSearchView {
        match (self.stage, reply) {
            (IconStage::Sibling(k), IconReplyView::File(Some(data))) => self.ended_with(k, data),
            (IconStage::Sibling(k), IconReplyView::File(None)) => if k + 1 < 6 {
                self.at(IconStage::Sibling((k + 1) as usize))
            } else if self.stem is Some {
                self.at(IconStage::Folder)
            } else {
                self.at(IconStage::Done)
            },
            (IconStage::Folder, IconReplyView::Dir(is_dir)) => if is_dir {
                self.at(IconStage::InFolder(0))
            } else {
                self.at(IconStage::Done)
            },
            (IconStage::InFolder(k), IconReplyView::File(Some(data))) => self.ended_with(k, data),
            (IconStage::InFolder(k), IconReplyView::File(None)) => if k + 1 < 4 {
                self.at(IconStage::InFolder((k + 1) as usize))
            } else {
                self.at(IconStage::Done)
            },
            _ => self,
        }
    }

    /// An upper bound on the replies that the search still needs.
    pub open spec fn steps_left(self) -> nat {
        match self.stage {
            IconStage::Sibling(k) => (11 - k) as nat,
            IconStage::Folder => 5,
            IconStage::InFolder(k) => (4 - k) as nat,
            IconStage::Done => 0,
        }
    }
}

/// What lies on the disk, as far as a search can see it.
pub struct Files {
    /// The bytes of the file at a path, or `None` where no file can be read
    /// there.
    pub read: spec_fn(Seq<char>) -> Option<Seq<u8>>,
    /// Whether a path is a directory.
    pub is_dir: spec_fn(Seq<char>) -> bool,
}

impl Files {
    /// The true answer to a request.
    pub open spec fn reply(self, request: IconRequestView) -> IconReplyView {
        match request {
            IconRequestView::ReadFile(p) => IconReplyView::File((self.read)(p)),
            IconRequestView::IsDir(p) => IconReplyView::Dir((self.is_dir)(p)),
            IconRequestView::Finished(_) => IconReplyView::Dir(false),
        }
    }
}

/// The first readable image in `dir` among the icon names from index `k` up
/// to `count`, as a `data:` URI.
pub open spec fn first_icon_in(dir: Seq<char>, k: int, count: int, files: Files, windows: bool) -> Option<
    Seq<char>,
>
    decreases count - k,
{
    if k >= count {
        None
    } else {
        match (files.read)(join_spec(dir, icon_name(k), windows)) {
            Some(data) => Some(data_uri_spec(icon_is_png(k), data)),
            None => first_icon_in(dir, k + 1, count, files, windows),
        }
    }
}

/// The image in the directory named after the game, where that is a
/// directory.
pub open spec fn folder_icon(parent: Seq<char>, stem: Option<Seq<char>>, files: Files, windows: bool) -> Option<
    Seq<char>,
> {
    match stem {
        Some(name) => if (files.is_dir)(join_spec(parent, name, windows)) {
            first_icon_in(join_spec(parent, name, windows), 0, 4, files, windows)
        } else {
            None
        },
        None => None,
    }
}

/// The local image of a game file: the first readable one of the six icon
/// names beside the file, else the first readable one of the first four
/// names in the directory named after the game.
pub open spec fn local_icon(parent: Option<Seq<char>>, stem: Option<Seq<char>>, files: Files, windows: bool) -> Option<
    Seq<char>,
> {
    match parent {
        Some(dir) => match first_icon_in(dir, 0, 6, files, windows) {
            Some(uri) => Some(uri),
            None => folder_icon(dir, stem, files, windows),
        },
        None => None,
    }
}

/// The image that a search in state `s` ends with when every reply is true.
pub open spec fn outcome(s: IconSearchView, files: Files) -> Option<Seq<char>> {
    match s.stage {
        IconStage::Sibling(k) => match first_icon_in(s.parent->0, k as int, 6, files, s.windows) {
            Some(uri) => Some(uri),
            None => folder_icon(s.parent->0, s.stem, files, s.windows),
        },
        IconStage::Folder => folder_icon(s.parent->0, s.stem, files, s.windows),
        IconStage::InFolder(k) => first_icon_in(s.folder(), k as int, 4, files, s.windows),
        IconStage::Done => s.found,
    }
}

/// A search begins in a state that will end with the local image of the
/// game file.
pub proof fn lemma_search_start(parent: Option<Seq<char>>, stem: Option<Seq<char>>, files: Files, windows: bool)
    ensures
        IconSearchView::start(parent, stem, windows).wf(),
        outcome(IconSearchView::start(parent, stem, windows), files) == local_icon(parent, stem, files, windows),
{
}

/// A true reply keeps the state valid, brings the search nearer to its end
/// and does not change what it will end with.
pub proof fn lemma_search_step(s: IconSearchView, files: Files)
    requires
        s.wf(),
        s.stage != IconStage::Done,
    ensures
        s.step(files.reply(s.request())).wf(),
        s.step(files.reply(s.request())).steps_left() < s.steps_left(),
        outcome(s.step(files.reply(s.request())), files) == outcome(s, files),
{
    match s.stage {
        IconStage::Sibling(k) => {
            reveal_with_fuel(first_icon_in, 2);
        },
        IconStage::Folder => {},
        IconStage::InFolder(k) => {
            reveal_with_fuel(first_icon_in, 2);
        },
        IconStage::Done => {},
    }
}

/// A search that is over asks for nothing more and hands out what it ended
/// with.
pub proof fn lemma_search_end(s: IconSearchView, files: Files)
    requires
        s.stage == IconStage::Done,
    ensures
        s.request() == IconRequestView::Finished(outcome(s, files)),
{
}

/// A search for an image beside a game file.
pub struct IconSearch {
    parent: Option<String>,
    stem: Option<String>,
    stage: IconStage,
    found: Option<String>,
    windows: bool,
}

impl View for IconSearch {
    type V = IconSearchView;

    closed spec fn view(&self) -> IconSearchView {
        IconSearchView {
            parent: opt_view(self.parent),
            stem: opt_view(self.stem),
            stage: self.stage,
            found: opt_view(self.found),
            windows: self.windows,
        }
    }
}

/// A copy of an optional string.
fn copy_opt(s: &Option<String>) -> (out: Option<String>)
    ensures
        out == *s,
{
    match s {
        Some(t) => Some(t.clone()),
        None => None,
    }
}

impl IconSearch {
    #[verifier::type_invariant]
    spec fn valid(self) -> bool {
        self@.wf()
    }

    /// Begins the search for the local image of `path`, on Windows or
    /// elsewhere.
    pub fn new(path: &GamePath, windows: bool) -> (s: IconSearch)
        ensures
            s@ == IconSearchView::start(path@.parent, path@.stem, windows),
            s@.wf(),
    {
        let parent = copy_opt(&path.parent);
        let stage = if parent.is_some() {
            IconStage::Sibling(0)
        } else {
            IconStage::Done
        };
        IconSearch { parent, stem: copy_opt(&path.stem), stage, found: None, windows }
    }

    /// What the search needs next.
    pub fn request(&self) -> (r: IconRequest)
        ensures
            self@.wf(),
            r@ == self@.request(),
    {
        proof {
            use_type_invariant(self);
        }
        match self.stage {
            IconStage::Sibling(k) => {
                let dir = self.parent.as_ref().unwrap();
                IconRequest::ReadFile(join(dir.as_str(), icon_name_str(k), self.windows))
            },
            IconStage::Folder => {
                let dir = self.parent.as_ref().unwrap();
                let name = self.stem.as_ref().unwrap();
                IconRequest::IsDir(join(dir.as_str(), name.as_str(), self.windows))
            },
            IconStage::InFolder(k) => {
                let dir = self.parent.as_ref().unwrap();
                let name = self.stem.as_ref().unwrap();
                let folder = join(dir.as_str(), name.as_str(), self.windows);
                IconRequest::ReadFile(join(folder.as_str(), icon_name_str(k), self.windows))
            },
            IconStage::Done => IconRequest::Finished(copy_opt(&self.found)),
        }
    }

    /// The search after a reply to its request. A reply of the kind that was
    /// not asked for changes nothing.
    pub fn step(self, reply: IconReply) -> (next: IconSearch)
        requires
            reply matches IconReply::File(Some(data)) ==> fits_base64(data@.len()),
        ensures
            self@.wf(),
            next@.wf(),
            next@ == self@.step(reply@),
    {
        proof {
            use_type_invariant(&self);
        }
        let IconSearch { parent, stem, stage, found, windows } = self;
        match (stage, reply) {
            (IconStage::Sibling(k), IconReply::File(Some(data))) => IconSearch {
                parent,
                stem,
                stage: IconStage::Done,
                found: Some(data_uri(k % 2 == 1, data.as_slice())),
                windows,
            },
            (IconStage::Sibling(k), IconReply::File(None)) => {
                let stage = if k + 1 < SIBLING_ICONS {
                    IconStage::Sibling(k + 1)
                } else if stem.is_some() {
                    IconStage::Folder
                } else {
                    IconStage::Done
                };
                IconSearch { parent, stem, stage, found, windows }
            },
            (IconStage::Folder, IconReply::Dir(is_dir)) => {
                let stage = if is_dir {
                    IconStage::InFolder(0)
                } else {
                    IconStage::Done
                };
                IconSearch { parent, stem, stage, found, windows }
            },
            (IconStage::InFolder(k), IconReply::File(Some(data))) => IconSearch {
                parent,
                stem,
                stage: IconStage::Done,
                found: Some(data_uri(k % 2 == 1, data.as_slice())),
                windows,
            },
            (IconStage::InFolder(k), IconReply::File(None)) => {
                let stage = if k + 1 < FOLDER_ICONS {
                    IconStage::InFolder(k + 1)
                } else {
                    IconStage::Done
                };
                IconSearch { parent, stem, stage, found, windows }
            },
            (stage, _) => IconSearch { parent, stem, stage, found, windows },
        }
    }
}

/// A file of a `FileTable`: its path and its bytes.
pub struct FileEntry {
    pub path: String,
    pub data: Vec<u8>,
}

/// Files and directories held in memory: what a search would see on a disk
/// that holds exactly these. Of two files with one path the first counts.
pub struct FileTable {
    pub files: Vec<FileEntry>,
    pub dirs: Vec<String>,
}

/// The bytes of the first file of `files` with the path `p`.
pub open spec fn lookup(files: Seq<FileEntry>, p: Seq<char>) -> Option<Seq<u8>>
    decreases files.len(),
{
    if files.len() == 0 {
        None
    } else if files[0].path@ == p {
        Some(files[0].data@)
    } else {
        lookup(files.drop_first(), p)
    }
}

/// `p` is one of `dirs`.
pub open spec fn listed(dirs: Seq<String>, p: Seq<char>) -> bool {
    exists|i: int| 0 <= i < dirs.len() && #[trigger] dirs[i]@ == p
}

impl View for FileTable {
    type V = Files;

    open spec fn view(&self) -> Files {
        Files {
            read: |p: Seq<char>| lookup(self.files@, p),
            is_dir: |p: Seq<char>| listed(self.dirs@, p),
        }
    }
}

impl FileTable {
    /// Every file is short enough for its base64 text to fit `usize`.
    pub open spec fn fits(&self) -> bool {
        forall|i: int|
            0 <= i < self.files@.len() ==> fits_base64((#[trigger] self.files@[i]).data@.len())
    }

    /// The bytes of the file at `path`.
    pub fn read(&self, path: &str) -> (data: Option<Vec<u8>>)
        ensures
            match data {
                Some(d) => (self@.read)(path@) == Some(d@),
                None => (self@.read)(path@) is None,
            },
            self.fits() ==> (data matches Some(d) ==> fits_base64(d@.len())),
    {
        let wanted = path.to_owned();
        let mut i: usize = 0;
        assert(self.files@.skip(0) == self.files@);
        while i < self.files.len()
            invariant
                i <= self.files.len(),
                wanted@ == path@,
                lookup(self.files@, path@) == lookup(self.files@.skip(i as int), path@),
            decreases self.files.len() - i,
        {
            let ghost rest = self.files@.skip(i as int);
            assert(rest[0] == self.files@[i as int]);
            if self.files[i].path == wanted {
                let d = self.files[i].data.clone();
                assert(d@ =~= self.files@[i as int].data@);
                return Some(d);
            }
            assert(rest.drop_first() == self.files@.skip(i + 1));
            i += 1;
        }
        None
    }

    /// Whether `path` is one of the directories.
    pub fn is_dir(&self, path: &str) -> (r: bool)
        ensures
            r == (self@.is_dir)(path@),
    {
        let wanted = path.to_owned();
        let mut i: usize = 0;
        while i < self.dirs.len()
            invariant
                i <= self.dirs.len(),
                wanted@ == path@,
                forall|k: int| 0 <= k < i ==> #[trigger] self.dirs@[k]@ != path@,
            decreases self.dirs.len() - i,
        {
            if self.dirs[i] == wanted {
                return true;
            }
            i += 1;
        }
        false
    }

    /// The true answer to a request, on a disk that holds exactly this
    /// table.
    pub fn reply(&self, request: &IconRequest) -> (r: IconReply)
        ensures
            r@ == self@.reply(request@),
            self.fits() ==> (r matches IconReply::File(Some(d)) ==> fits_base64(d@.len())),
    {
        match request {
            IconRequest::ReadFile(p) => IconReply::File(self.read(p.as_str())),
            IconRequest::IsDir(p) => IconReply::Dir(self.is_dir(p.as_str())),
            IconRequest::Finished(_) => IconReply::Dir(false),
        }
    }
}

/// The local image of `path` on a disk that holds exactly `table`: the
/// search run to its end, with paths joined as on Windows or as elsewhere.
pub fn find_game_icon(path: &GamePath, table: &FileTable, windows: bool) -> (icon: Option<String>)
    requires
        table.fits(),
    ensures
        opt_view(icon) == local_icon(path@.parent, path@.stem, table@, windows),
{
    let mut search = IconSearch::new(path, windows);
    proof {
        lemma_search_start(path@.parent, path@.stem, table@, windows);
    }
    loop
        invariant
            table.fits(),
            search@.wf(),
            outcome(search@, table@) == local_icon(path@.parent, path@.stem, table@, windows),
        decreases search@.steps_left(),
    {
        let request = search.request();
        if let IconRequest::Finished(icon) = request {
            proof {
                lemma_search_end(search@, table@);
            }
            return icon;
        }
        let reply = table.reply(&request);
        proof {
            lemma_search_step(search@, table@);
        }
        search = search.step(reply);
    }
}

} // verus!
