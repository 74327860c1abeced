//! Paths.
//!
//! A path is a string. What it names is the sequence of its components:
//! the texts between separators, without the empty ones and without `.`,
//! after a root or a leading `.` of their own. Two strings are the same path
//! where their components are the same, and paths are ordered component by
//! component, as `std::path::Path` compares them on a system whose paths
//! have no prefix. The platform decides which characters separate: `/`
//! everywhere, `\` too on Windows. Drive and share prefixes of Windows are
//! not told apart from ordinary names.
//!
//! A file that a walk or a caller hands in is described by `GamePath`, which
//! holds the path and the parts of it that the catalog reads.

use crate::text::{joined, subvec, to_chars, to_string, views};
use vstd::prelude::*;

verus! {

/// A file as the catalog sees it: its path, and the parts of the path that
/// are read when the file is catalogued. A part is `None` where the path has
/// none.
pub struct GamePath {
    /// The whole path.
    pub path: String,
    /// The directory that holds the file.
    pub parent: Option<String>,
    /// The last component of the path.
    pub file_name: Option<String>,
    /// The file name without its extension.
    pub stem: Option<String>,
    /// The extension, without the dot.
    pub extension: Option<String>,
}

/// The text of an optional string.
pub open spec fn opt_view(s: Option<String>) -> Option<Seq<char>> {
    match s {
        Some(t) => Some(t@),
        None => None,
    }
}

/// The mathematical value of a `GamePath`.
pub struct GamePathView {
    pub path: Seq<char>,
    pub parent: Option<Seq<char>>,
    pub file_name: Option<Seq<char>>,
    pub stem: Option<Seq<char>>,
    pub extension: Option<Seq<char>>,
}

impl View for GamePath {
    type V = GamePathView;

    open spec fn view(&self) -> GamePathView {
        GamePathView {
            path: self.path@,
            parent: opt_view(self.parent),
            file_name: opt_view(self.file_name),
            stem: opt_view(self.stem),
            extension: opt_view(self.extension),
        }
    }
}

/// A character that separates the components of a path.
pub open spec fn is_separator(c: char, windows: bool) -> bool {
    c == '/' || (windows && c == '\\')
}

/// The separator that joining puts between two paths.
pub open spec fn main_separator(windows: bool) -> char {
    if windows {
        '\\'
    } else {
        '/'
    }
}

/// `rel` below `base`: the two joined by the platform's separator, which is
/// left out where `base` is empty or already ends with a separator. `rel` is
/// meant to be relative, and a `base` that is only a drive letter is joined
/// like any other.
pub open spec fn join_spec(base: Seq<char>, rel: Seq<char>, windows: bool) -> Seq<char> {
    if base.len() == 0 || is_separator(base.last(), windows) {
        base + rel
    } else {
        base + seq![main_separator(windows)] + rel
    }
}

/// One component of a path.
pub enum Component {
    /// The root, where the path begins with a separator.
    Root,
    /// A `.` at the very beginning of a relative path.
    Current,
    /// `..`.
    Parent,
    /// A name.
    Normal(Seq<char>),
}

/// How many characters stand before the first separator of `path`.
pub open spec fn segment_len(path: Seq<char>, windows: bool) -> nat
    decreases path.len(),
{
    if path.len() == 0 || is_separator(path[0], windows) {
        0
    } else {
        1 + segment_len(path.drop_first(), windows)
    }
}

/// The component that one text between separators stands for: none for an
/// empty text and for `.`.
pub open spec fn named(segment: Seq<char>) -> Seq<Component> {
    if segment.len() == 0 || segment == seq!['.'] {
        seq![]
    } else if segment == seq!['.', '.'] {
        seq![Component::Parent]
    } else {
        seq![Component::Normal(segment)]
    }
}

/// The components that the texts between the separators of `path` stand
/// for, in order.
pub open spec fn names(path: Seq<char>, windows: bool) -> Seq<Component>
    decreases path.len(),
{
    let n = segment_len(path, windows);
    if n < path.len() {
        named(path.take(n as int)) + names(path.skip(n as int + 1), windows)
    } else {
        named(path)
    }
}

/// `path` is `.` or begins with `.` and a separator.
pub open spec fn begins_with_current(path: Seq<char>, windows: bool) -> bool {
    path.len() >= 1 && path[0] == '.' && (path.len() == 1 || is_separator(path[1], windows))
}

/// What begins the components of `path`: the root, a leading `.`, or
/// nothing.
pub open spec fn start(path: Seq<char>, windows: bool) -> Seq<Component> {
    if path.len() > 0 && is_separator(path[0], windows) {
        seq![Component::Root]
    } else if begins_with_current(path, windows) {
        seq![Component::Current]
    } else {
        seq![]
    }
}

/// The components of `path`: the root or a leading `.` where it has one,
/// then the names between its separators. Repeated separators, a separator
/// at the end and every other `.` add nothing.
pub open spec fn components(path: Seq<char>, windows: bool) -> Seq<Component> {
    start(path, windows) + names(path, windows)
}

/// The place of a kind of component among the kinds: the root first, then
/// `.`, then `..`, then the names.
pub open spec fn rank(c: Component) -> int {
    match c {
        Component::Root => 0,
        Component::Current => 1,
        Component::Parent => 2,
        Component::Normal(_) => 3,
    }
}

/// The text of a name; empty for the other kinds.
pub open spec fn name_of(c: Component) -> Seq<char> {
    match c {
        Component::Normal(name) => name,
        _ => seq![],
    }
}

/// Component order: by kind, and two names in text order.
pub open spec fn component_lt(a: Component, b: Component) -> bool {
    rank(a) < rank(b) || (rank(a) == 3 && rank(b) == 3 && text_lt(name_of(a), name_of(b)))
}

/// Order of component sequences: by the first component in which they
/// differ, a proper prefix before what it is a prefix of.
pub open spec fn components_lt(a: Seq<Component>, b: Seq<Component>) -> bool
    decreases a.len(),
{
    if b.len() == 0 {
        false
    } else if a.len() == 0 {
        true
    } else if a[0] != b[0] {
        component_lt(a[0], b[0])
    } else {
        components_lt(a.drop_first(), b.drop_first())
    }
}

/// Path order: `a` comes before `b`, component by component.
pub open spec fn path_lt(a: Seq<char>, b: Seq<char>, windows: bool) -> bool {
    components_lt(components(a, windows), components(b, windows))
}

/// `a` and `b` are the same path: they have the same components.
pub open spec fn same_path(a: Seq<char>, b: Seq<char>, windows: bool) -> bool {
    components(a, windows) == components(b, windows)
}

/// Each path comes before every later one: sorted, and no path twice.
pub open spec fn increasing_paths(s: Seq<Seq<char>>, windows: bool) -> bool {
    forall|i: int, j: int|
        0 <= i < j < s.len() ==> #[trigger] path_lt(s[i], s[j], windows)
}

/// `items[i]` is the first of `items` that is its path.
pub open spec fn kept(items: Seq<Seq<char>>, i: int, windows: bool) -> bool {
    &&& 0 <= i < items.len()
    &&& forall|j: int| 0 <= j < i ==> !#[trigger] same_path(items[j], items[i], windows)
}

/// `path` is one of `items`, and the first of them that is this path.
pub open spec fn comes_from(path: Seq<char>, items: Seq<Seq<char>>, windows: bool) -> bool {
    exists|i: int| #[trigger] kept(items, i, windows) && items[i] == path
}

/// One of `out` is the same path as `path`.
pub open spec fn stands_for(out: Seq<Seq<char>>, path: Seq<char>, windows: bool) -> bool {
    exists|k: int| 0 <= k < out.len() && #[trigger] same_path(out[k], path, windows)
}

/// `out` is `items` sorted as paths, each path once: it is in path order,
/// each of its strings is the first of `items` that is that path, and every
/// path of `items` is in it.
pub open spec fn sorted_paths_of(out: Seq<Seq<char>>, items: Seq<Seq<char>>, windows: bool) -> bool {
    &&& increasing_paths(out, windows)
    &&& forall|k: int| 0 <= k < out.len() ==> #[trigger] comes_from(out[k], items, windows)
    &&& forall|i: int| 0 <= i < items.len() ==> #[trigger] stands_for(out, items[i], windows)
}

/// Text order: `a` comes before `b`, character by character, a proper prefix
/// before what it is a prefix of.
pub open spec fn text_lt(a: Seq<char>, b: Seq<char>) -> bool
    decreases a.len(),
{
    if b.len() == 0 {
        false
    } else if a.len() == 0 {
        true
    } else if a[0] != b[0] {
        a[0] < b[0]
    } else {
        text_lt(a.drop_first(), b.drop_first())
    }
}

/// No text comes before itself.
pub proof fn lemma_text_lt_irreflexive(a: Seq<char>)
    ensures
        !text_lt(a, a),
    decreases a.len(),
{
    if a.len() > 0 {
        lemma_text_lt_irreflexive(a.drop_first());
    }
}

/// Text order is transitive.
pub proof fn lemma_text_lt_transitive(a: Seq<char>, b: Seq<char>, c: Seq<char>)
    requires
        text_lt(a, b),
        text_lt(b, c),
    ensures
        text_lt(a, c),
    decreases a.len(),
{
    if a.len() > 0 && a[0] == b[0] && b[0] == c[0] {
        lemma_text_lt_transitive(a.drop_first(), b.drop_first(), c.drop_first());
    }
}

/// No component comes before itself.
pub proof fn lemma_component_lt_irreflexive(a: Component)
    ensures
        !component_lt(a, a),
{
    lemma_text_lt_irreflexive(name_of(a));
}

/// Component order is transitive.
pub proof fn lemma_component_lt_transitive(a: Component, b: Component, c: Component)
    requires
        component_lt(a, b),
        component_lt(b, c),
    ensures
        component_lt(a, c),
{
    if rank(a) == 3 && rank(b) == 3 && rank(c) == 3 {
        lemma_text_lt_transitive(name_of(a), name_of(b), name_of(c));
    }
}

/// No sequence of components comes before itself.
pub proof fn lemma_components_lt_irreflexive(a: Seq<Component>)
    ensures
        !components_lt(a, a),
    decreases a.len(),
{
    if a.len() > 0 {
        lemma_components_lt_irreflexive(a.drop_first());
    }
}

/// The order of component sequences is transitive.
pub proof fn lemma_components_lt_transitive(
    a: Seq<Component>,
    b: Seq<Component>,
    c: Seq<Component>,
)
    requires
        components_lt(a, b),
        components_lt(b, c),
    ensures
        components_lt(a, c),
    decreases a.len(),
{
    if a.len() > 0 {
        if a[0] == b[0] && b[0] == c[0] {
            lemma_components_lt_transitive(a.drop_first(), b.drop_first(), c.drop_first());
        } else if a[0] != b[0] && b[0] != c[0] {
            lemma_component_lt_transitive(a[0], b[0], c[0]);
            lemma_component_lt_irreflexive(a[0]);
        }
    }
}

/// Path order is a strict order on paths: no path comes before itself or
/// before a string that is the same path, and the order is transitive.
pub proof fn lemma_path_order(a: Seq<char>, b: Seq<char>, c: Seq<char>, windows: bool)
    ensures
        same_path(a, b, windows) ==> !path_lt(a, b, windows) && !path_lt(b, a, windows),
        path_lt(a, b, windows) && path_lt(b, c, windows) ==> path_lt(a, c, windows),
{
    lemma_components_lt_irreflexive(components(a, windows));
    if path_lt(a, b, windows) && path_lt(b, c, windows) {
        lemma_components_lt_transitive(
            components(a, windows),
            components(b, windows),
            components(c, windows),
        );
    }
}

/// A run of `k` characters without separator that ends at a separator or at
/// the end of the path is the first segment.
pub proof fn lemma_segment_len_unique(path: Seq<char>, windows: bool, k: int)
    requires
        0 <= k <= path.len(),
        forall|i: int| 0 <= i < k ==> !is_separator(#[trigger] path[i], windows),
        k < path.len() ==> is_separator(path[k], windows),
    ensures
        segment_len(path, windows) == k,
    decreases path.len(),
{
    if k > 0 {
        let rest = path.drop_first();
        assert forall|i: int| 0 <= i < k - 1 implies !is_separator(
            #[trigger] rest[i],
            windows,
        ) by {
            assert(rest[i] == path[i + 1]);
        }
        assert(!is_separator(path[0], windows));
        lemma_segment_len_unique(rest, windows, k - 1);
    }
}

/// What is the first of its path among the first `i` items is so among the
/// first `i + 1`.
proof fn lemma_comes_from_more(path: Seq<char>, items: Seq<Seq<char>>, i: int, windows: bool)
    requires
        0 <= i < items.len(),
        comes_from(path, items.take(i), windows),
    ensures
        comes_from(path, items.take(i + 1), windows),
{
    let done = items.take(i);
    let next = items.take(i + 1);
    let m = choose|m: int| #[trigger] kept(done, m, windows) && done[m] == path;
    assert forall|j: int| 0 <= j < m implies !#[trigger] same_path(next[j], next[m], windows) by {
        assert(!same_path(done[j], done[m], windows));
    }
    assert(kept(next, m, windows));
    assert(next[m] == path);
}

/// A list that stands for the first `i` items stands for the first `i + 1`
/// where it holds the path of the next item already.
proof fn lemma_sorted_paths_skip(
    out: Seq<Seq<char>>,
    items: Seq<Seq<char>>,
    i: int,
    windows: bool,
)
    requires
        0 <= i < items.len(),
        sorted_paths_of(out, items.take(i), windows),
        stands_for(out, items[i], windows),
    ensures
        sorted_paths_of(out, items.take(i + 1), windows),
{
    let done = items.take(i);
    let next = items.take(i + 1);
    assert forall|k: int| 0 <= k < out.len() implies #[trigger] comes_from(
        out[k],
        next,
        windows,
    ) by {
        assert(comes_from(out[k], done, windows));
        lemma_comes_from_more(out[k], items, i, windows);
    }
    assert forall|j: int| 0 <= j < next.len() implies #[trigger] stands_for(
        out,
        next[j],
        windows,
    ) by {
        if j < i {
            assert(stands_for(out, done[j], windows));
        }
    }
}

/// A list that stands for the first `i` items and does not hold the path of
/// the next item stands for the first `i + 1` once that item is put in at
/// its place.
proof fn lemma_sorted_paths_add(
    out: Seq<Seq<char>>,
    items: Seq<Seq<char>>,
    i: int,
    at: int,
    windows: bool,
)
    requires
        0 <= i < items.len(),
        0 <= at <= out.len(),
        sorted_paths_of(out, items.take(i), windows),
        !stands_for(out, items[i], windows),
        increasing_paths(out.insert(at, items[i]), windows),
    ensures
        sorted_paths_of(out.insert(at, items[i]), items.take(i + 1), windows),
{
    let done = items.take(i);
    let next = items.take(i + 1);
    let x = items[i];
    let after = out.insert(at, x);
    assert forall|j: int| 0 <= j < i implies !#[trigger] same_path(next[j], next[i], windows) by {
        assert(stands_for(out, done[j], windows));
        let k = choose|k: int| 0 <= k < out.len() && #[trigger] same_path(out[k], done[j], windows);
        if same_path(done[j], x, windows) {
            assert(same_path(out[k], x, windows));
        }
    }
    assert(kept(next, i, windows));
    assert(next[i] == x);
    assert forall|k: int| 0 <= k < after.len() implies #[trigger] comes_from(
        after[k],
        next,
        windows,
    ) by {
        if k < at {
            assert(comes_from(out[k], done, windows));
            lemma_comes_from_more(out[k], items, i, windows);
        } else if k > at {
            assert(comes_from(out[k - 1], done, windows));
            lemma_comes_from_more(out[k - 1], items, i, windows);
        }
    }
    assert forall|j: int| 0 <= j < next.len() implies #[trigger] stands_for(
        after,
        next[j],
        windows,
    ) by {
        if j < i {
            assert(stands_for(out, done[j], windows));
            let k = choose|k: int|
                0 <= k < out.len() && #[trigger] same_path(out[k], done[j], windows);
            if k < at {
                assert(same_path(after[k], next[j], windows));
            } else {
                assert(same_path(after[k + 1], next[j], windows));
            }
        } else {
            assert(same_path(after[at], next[j], windows));
        }
    }
}

/// Two lists in path order that hold the same strings are the same list.
proof fn lemma_increasing_unique(a: Seq<Seq<char>>, b: Seq<Seq<char>>, windows: bool)
    requires
        increasing_paths(a, windows),
        increasing_paths(b, windows),
        forall|t: Seq<char>| a.contains(t) <==> b.contains(t),
    ensures
        a == b,
    decreases a.len(),
{
    if a.len() == 0 {
        if b.len() > 0 {
            assert(b.contains(b[0]));
        }
        assert(a =~= b);
    } else if b.len() == 0 {
        assert(a.contains(a[0]));
    } else {
        assert(a.contains(a[0]));
        let j = choose|j: int| 0 <= j < b.len() && b[j] == a[0];
        assert(b.contains(b[0]));
        let i = choose|i: int| 0 <= i < a.len() && a[i] == b[0];
        lemma_path_order(a[0], a[0], a[0], windows);
        lemma_path_order(b[0], b[0], b[0], windows);
        if i > 0 && j > 0 {
            assert(path_lt(a[0], a[i], windows));
            assert(path_lt(b[0], b[j], windows));
            lemma_path_order(a[0], a[i], a[0], windows);
        }
        assert(a[0] == b[0]);
        let ta = a.drop_first();
        let tb = b.drop_first();
        assert forall|t: Seq<char>| ta.contains(t) <==> tb.contains(t) by {
            lemma_path_order(t, t, t, windows);
            if ta.contains(t) {
                let k = choose|k: int| 0 <= k < ta.len() && ta[k] == t;
                assert(a[k + 1] == t);
                assert(a.contains(t));
                assert(path_lt(a[0], a[k + 1], windows));
                let m = choose|m: int| 0 <= m < b.len() && b[m] == t;
                assert(m > 0);
                assert(tb[m - 1] == t);
            }
            if tb.contains(t) {
                let k = choose|k: int| 0 <= k < tb.len() && tb[k] == t;
                assert(b[k + 1] == t);
                assert(b.contains(t));
                assert(path_lt(b[0], b[k + 1], windows));
                let m = choose|m: int| 0 <= m < a.len() && a[m] == t;
                assert(m > 0);
                assert(ta[m - 1] == t);
            }
        }
        assert forall|x: int, y: int| 0 <= x < y < ta.len() implies #[trigger] path_lt(
            ta[x],
            ta[y],
            windows,
        ) by {
            assert(path_lt(a[x + 1], a[y + 1], windows));
        }
        assert forall|x: int, y: int| 0 <= x < y < tb.len() implies #[trigger] path_lt(
            tb[x],
            tb[y],
            windows,
        ) by {
            assert(path_lt(b[x + 1], b[y + 1], windows));
        }
        lemma_increasing_unique(ta, tb, windows);
        assert(a =~= seq![a[0]] + ta);
        assert(b =~= seq![b[0]] + tb);
    }
}

/// Each string of a sorted list of `items` is in every other sorted list of
/// `items`.
proof fn lemma_sorted_paths_share(
    a: Seq<Seq<char>>,
    b: Seq<Seq<char>>,
    items: Seq<Seq<char>>,
    windows: bool,
    t: Seq<char>,
)
    requires
        sorted_paths_of(a, items, windows),
        sorted_paths_of(b, items, windows),
        a.contains(t),
    ensures
        b.contains(t),
{
    let k = choose|k: int| 0 <= k < a.len() && a[k] == t;
    assert(comes_from(a[k], items, windows));
    let i = choose|i: int| #[trigger] kept(items, i, windows) && items[i] == t;
    assert(stands_for(b, items[i], windows));
    let m = choose|m: int| 0 <= m < b.len() && #[trigger] same_path(b[m], items[i], windows);
    assert(comes_from(b[m], items, windows));
    let j = choose|j: int| #[trigger] kept(items, j, windows) && items[j] == b[m];
    // `i` and `j` are both the first index of one path.
    if j < i {
        assert(!same_path(items[j], items[i], windows));
    } else if i < j {
        assert(!same_path(items[i], items[j], windows));
    }
    assert(b[m] == t);
}

/// Sorting as paths has one result: two lists that are `items` sorted as
/// paths, each path once, are the same list.
pub proof fn lemma_sorted_paths_unique(
    a: Seq<Seq<char>>,
    b: Seq<Seq<char>>,
    items: Seq<Seq<char>>,
    windows: bool,
)
    requires
        sorted_paths_of(a, items, windows),
        sorted_paths_of(b, items, windows),
    ensures
        a == b,
{
    assert forall|t: Seq<char>| a.contains(t) <==> b.contains(t) by {
        if a.contains(t) {
            lemma_sorted_paths_share(a, b, items, windows, t);
        }
        if b.contains(t) {
            lemma_sorted_paths_share(b, a, items, windows, t);
        }
    }
    lemma_increasing_unique(a, b, windows);
}

/// How two texts, or two paths, stand to each other in their order.
#[derive(Clone, Copy, PartialEq, Eq, Structural, Debug)]
pub enum Position {
    /// The first comes before the second.
    Before,
    /// The two are the same.
    Same,
    /// The first comes after the second.
    After,
}

/// Where `a` stands to `b` in text order.
pub fn position(a: &Vec<char>, b: &Vec<char>) -> (p: Position)
    ensures
        p == Position::Before <==> text_lt(a@, b@),
        p == Position::Same <==> a@ == b@,
        p == Position::After <==> text_lt(b@, a@),
{
    let mut i: usize = 0;
    proof {
        assert(a@.skip(0) == a@);
        assert(b@.skip(0) == b@);
        lemma_text_lt_irreflexive(a@);
    }
    while i < a.len() && i < b.len()
        invariant
            i <= a.len(),
            i <= b.len(),
            a@.take(i as int) == b@.take(i as int),
            text_lt(a@, b@) == text_lt(a@.skip(i as int), b@.skip(i as int)),
            text_lt(b@, a@) == text_lt(b@.skip(i as int), a@.skip(i as int)),
        decreases a.len() - i,
    {
        let ghost ra = a@.skip(i as int);
        let ghost rb = b@.skip(i as int);
        assert(ra[0] == a@[i as int] && rb[0] == b@[i as int]);
        if a[i] != b[i] {
            assert(a@ != b@);
            if a[i] < b[i] {
                return Position::Before;
            } else {
                return Position::After;
            }
        }
        assert(ra.drop_first() == a@.skip(i + 1));
        assert(rb.drop_first() == b@.skip(i + 1));
        assert(a@.take(i + 1) == a@.take(i as int).push(a@[i as int]));
        assert(b@.take(i + 1) == b@.take(i as int).push(b@[i as int]));
        i += 1;
    }
    if i < b.len() {
        assert(a@.len() != b@.len());
        Position::Before
    } else if i < a.len() {
        assert(a@.len() != b@.len());
        Position::After
    } else {
        assert(a@ == a@.take(i as int));
        assert(b@ == b@.take(i as int));
        proof {
            lemma_text_lt_irreflexive(a@);
        }
        Position::Same
    }
}

/// Whether `c` separates the components of a path.
pub fn is_separator_char(c: char, windows: bool) -> (r: bool)
    ensures
        r == is_separator(c, windows),
{
    c == '/' || (windows && c == '\\')
}

/// `rel` below `base`.
pub fn join(base: &str, rel: &str, windows: bool) -> (path: String)
    ensures
        path@ == join_spec(base@, rel@, windows),
{
    let b = to_chars(base);
    let r = to_chars(rel);
    if b.len() == 0 || is_separator_char(b[b.len() - 1], windows) {
        to_string(&joined(&b, &r))
    } else {
        let mut sep: Vec<char> = Vec::new();
        sep.push(
            if windows {
                '\\'
            } else {
                '/'
            },
        );
        assert(sep@ == seq![main_separator(windows)]);
        to_string(&joined(&joined(&b, &sep), &r))
    }
}

/// One component of a path, as the executable code holds it.
pub enum Part {
    Root,
    Current,
    Parent,
    Normal(Vec<char>),
}

impl View for Part {
    type V = Component;

    open spec fn view(&self) -> Component {
        match self {
            Part::Root => Component::Root,
            Part::Current => Component::Current,
            Part::Parent => Component::Parent,
            Part::Normal(name) => Component::Normal(name@),
        }
    }
}

/// The components that a sequence of parts stands for.
pub open spec fn part_views(v: Seq<Part>) -> Seq<Component> {
    Seq::new(v.len(), |i: int| v[i]@)
}

/// The index of the first separator of `path` at or after `from`, or
/// `path.len()` where there is none.
fn find_separator_from(path: &Vec<char>, from: usize, windows: bool) -> (at: usize)
    requires
        from <= path.len(),
    ensures
        from <= at <= path.len(),
        at - from == segment_len(path@.skip(from as int), windows),
{
    let mut i: usize = from;
    while i < path.len() && !is_separator_char(path[i], windows)
        invariant
            from <= i <= path.len(),
            forall|k: int| from <= k < i ==> !is_separator(#[trigger] path@[k], windows),
        decreases path.len() - i,
    {
        i += 1;
    }
    proof {
        let rest = path@.skip(from as int);
        assert forall|k: int| 0 <= k < i - from implies !is_separator(
            #[trigger] rest[k],
            windows,
        ) by {
            assert(rest[k] == path@[from + k]);
        }
        if i < path.len() {
            assert(rest[i - from] == path@[i as int]);
        }
        lemma_segment_len_unique(rest, windows, i - from);
    }
    i
}

/// The components of `path`.
pub fn split_components(path: &Vec<char>, windows: bool) -> (parts: Vec<Part>)
    ensures
        part_views(parts@) == components(path@, windows),
{
    let mut parts: Vec<Part> = Vec::new();
    if path.len() > 0 && is_separator_char(path[0], windows) {
        parts.push(Part::Root);
    } else if path.len() >= 1 && path[0] == '.' && (path.len() == 1 || is_separator_char(
        path[1],
        windows,
    )) {
        parts.push(Part::Current);
    }
    assert(part_views(parts@) =~= start(path@, windows));
    let mut pos: usize = 0;
    let mut done = false;
    assert(path@.skip(0) == path@);
    while !done
        invariant
            pos <= path.len(),
            !done ==> components(path@, windows) == part_views(parts@) + names(
                path@.skip(pos as int),
                windows,
            ),
            done ==> components(path@, windows) == part_views(parts@),
        decreases path.len() - pos + (if done { 0int } else { 1int }),
    {
        let ghost rest = path@.skip(pos as int);
        let ghost before = part_views(parts@);
        let end = find_separator_from(path, pos, windows);
        let segment = subvec(path, pos, end);
        assert(segment@ == rest.take(end - pos));
        if end == path.len() {
            assert(rest.take(end - pos) == rest);
        }
        let single = segment.len() == 1 && segment[0] == '.';
        let double = segment.len() == 2 && segment[0] == '.' && segment[1] == '.';
        proof {
            if single {
                assert(segment@ =~= seq!['.']);
            } else if segment.len() == 1 {
                assert(segment@[0] != seq!['.'][0]);
            }
            if double {
                assert(segment@ =~= seq!['.', '.']);
            } else if segment.len() == 2 {
                assert(segment@[0] != seq!['.', '.'][0] || segment@[1] != seq!['.', '.'][1]);
            }
        }
        if segment.len() == 0 || single {
            assert(part_views(parts@) =~= before + named(segment@));
        } else if double {
            parts.push(Part::Parent);
            assert(part_views(parts@) =~= before + named(segment@));
        } else {
            let ghost name = segment@;
            parts.push(Part::Normal(segment));
            assert(part_views(parts@) =~= before + named(name));
        }
        if end < path.len() {
            assert(rest.skip(end - pos + 1) == path@.skip(end + 1));
            pos = end + 1;
        } else {
            done = true;
        }
    }
    parts
}

/// Where the component `a` stands to `b`.
pub fn part_position(a: &Part, b: &Part) -> (p: Position)
    ensures
        p == Position::Before <==> component_lt(a@, b@),
        p == Position::Same <==> a@ == b@,
        p == Position::After <==> component_lt(b@, a@),
{
    proof {
        lemma_text_lt_irreflexive(name_of(a@));
    }
    match (a, b) {
        (Part::Normal(x), Part::Normal(y)) => position(x, y),
        (Part::Normal(_), _) => Position::After,
        (_, Part::Normal(_)) => Position::Before,
        (Part::Root, Part::Root) => Position::Same,
        (Part::Root, _) => Position::Before,
        (_, Part::Root) => Position::After,
        (Part::Current, Part::Current) => Position::Same,
        (Part::Current, _) => Position::Before,
        (_, Part::Current) => Position::After,
        (Part::Parent, Part::Parent) => Position::Same,
    }
}

/// Where the component sequence `a` stands to `b`.
pub fn parts_position(a: &Vec<Part>, b: &Vec<Part>) -> (p: Position)
    ensures
        p == Position::Before <==> components_lt(part_views(a@), part_views(b@)),
        p == Position::Same <==> part_views(a@) == part_views(b@),
        p == Position::After <==> components_lt(part_views(b@), part_views(a@)),
{
    let ghost va = part_views(a@);
    let ghost vb = part_views(b@);
    let mut i: usize = 0;
    proof {
        assert(va.skip(0) == va);
        assert(vb.skip(0) == vb);
    }
    while i < a.len() && i < b.len()
        invariant
            i <= a.len(),
            i <= b.len(),
            va == part_views(a@),
            vb == part_views(b@),
            va.take(i as int) == vb.take(i as int),
            components_lt(va, vb) == components_lt(va.skip(i as int), vb.skip(i as int)),
            components_lt(vb, va) == components_lt(vb.skip(i as int), va.skip(i as int)),
        decreases a.len() - i,
    {
        let ghost ra = va.skip(i as int);
        let ghost rb = vb.skip(i as int);
        assert(ra[0] == a@[i as int]@ && rb[0] == b@[i as int]@);
        match part_position(&a[i], &b[i]) {
            Position::Before => {
                proof {
                    lemma_component_lt_irreflexive(ra[0]);
                }
                assert(va[i as int] != vb[i as int]);
                assert(components_lt(rb, ra) ==> component_lt(rb[0], ra[0]));
                proof {
                    if component_lt(rb[0], ra[0]) {
                        lemma_component_lt_transitive(ra[0], rb[0], ra[0]);
                    }
                }
                return Position::Before;
            },
            Position::After => {
                proof {
                    lemma_component_lt_irreflexive(ra[0]);
                }
                assert(va[i as int] != vb[i as int]);
                proof {
                    if component_lt(ra[0], rb[0]) {
                        lemma_component_lt_transitive(ra[0], rb[0], ra[0]);
                    }
                }
                return Position::After;
            },
            Position::Same => {},
        }
        assert(ra.drop_first() == va.skip(i + 1));
        assert(rb.drop_first() == vb.skip(i + 1));
        assert(va.take(i + 1) == va.take(i as int).push(va[i as int]));
        assert(vb.take(i + 1) == vb.take(i as int).push(vb[i as int]));
        i += 1;
    }
    proof {
        lemma_components_lt_irreflexive(va);
    }
    if i < b.len() {
        assert(va.len() != vb.len());
        Position::Before
    } else if i < a.len() {
        assert(va.len() != vb.len());
        Position::After
    } else {
        assert(va == va.take(i as int));
        assert(vb == vb.take(i as int));
        Position::Same
    }
}

/// Where the path `a` stands to the path `b`.
pub fn path_position(a: &str, b: &str, windows: bool) -> (p: Position)
    ensures
        p == Position::Before <==> path_lt(a@, b@, windows),
        p == Position::Same <==> same_path(a@, b@, windows),
        p == Position::After <==> path_lt(b@, a@, windows),
{
    let pa = split_components(&to_chars(a), windows);
    let pb = split_components(&to_chars(b), windows);
    parts_position(&pa, &pb)
}

/// A path with its components.
struct Keyed {
    path: String,
    parts: Vec<Part>,
}

/// The paths of a sequence of keyed paths.
spec fn keyed_paths(v: Seq<Keyed>) -> Seq<Seq<char>> {
    Seq::new(v.len(), |i: int| v[i].path@)
}

/// Each keyed path holds the components of its path.
spec fn keyed_ok(v: Seq<Keyed>, windows: bool) -> bool {
    forall|i: int|
        0 <= i < v.len() ==> part_views((#[trigger] v[i]).parts@) == components(
            v[i].path@,
            windows,
        )
}

/// Puts `item` into a list in path order at its place, unless the list
/// holds the same path already. Says whether it did.
fn insert_path(sorted: &mut Vec<Keyed>, item: Keyed, windows: bool) -> (added: bool)
    requires
        keyed_ok(old(sorted)@, windows),
        part_views(item.parts@) == components(item.path@, windows),
        increasing_paths(keyed_paths(old(sorted)@), windows),
    ensures
        keyed_ok(final(sorted)@, windows),
        increasing_paths(keyed_paths(final(sorted)@), windows),
        !added ==> final(sorted)@ == old(sorted)@ && stands_for(
            keyed_paths(old(sorted)@),
            item.path@,
            windows,
        ),
        added ==> !stands_for(keyed_paths(old(sorted)@), item.path@, windows) && exists|p: int|
            0 <= p <= old(sorted)@.len() && keyed_paths(final(sorted)@) == #[trigger] keyed_paths(
                old(sorted)@,
            ).insert(p, item.path@),
{
    let ghost before = keyed_paths(sorted@);
    let ghost x = item.path@;
    let mut i: usize = 0;
    let mut placed = false;
    while i < sorted.len() && !placed
        invariant
            i <= sorted.len(),
            sorted@ == old(sorted)@,
            before == keyed_paths(sorted@),
            x == item.path@,
            keyed_ok(sorted@, windows),
            part_views(item.parts@) == components(x, windows),
            increasing_paths(before, windows),
            forall|k: int| 0 <= k < i ==> #[trigger] path_lt(before[k], x, windows),
            placed ==> i < sorted.len() && path_lt(x, before[i as int], windows),
        decreases sorted.len() - i + (if placed { 0int } else { 1int }),
    {
        assert(before[i as int] == sorted@[i as int].path@);
        match parts_position(&sorted[i].parts, &item.parts) {
            Position::Before => {
                i += 1;
            },
            Position::Same => {
                assert(same_path(before[i as int], x, windows));
                return false;
            },
            Position::After => {
                placed = true;
            },
        }
    }
    proof {
        assert forall|k: int| 0 <= k < before.len() implies !#[trigger] same_path(
            before[k],
            x,
            windows,
        ) by {
            lemma_path_order(before[k], x, x, windows);
            if k < i {
                assert(path_lt(before[k], x, windows));
            } else {
                if k > i {
                    assert(path_lt(before[i as int], before[k], windows));
                    lemma_path_order(x, before[i as int], before[k], windows);
                }
                lemma_path_order(x, before[k], x, windows);
            }
        }
    }
    sorted.insert(i, item);
    proof {
        let after = keyed_paths(sorted@);
        assert(after =~= before.insert(i as int, x));
        assert forall|a: int, b: int| 0 <= a < b < after.len() implies #[trigger] path_lt(
            after[a],
            after[b],
            windows,
        ) by {
            if b < i {
                assert(path_lt(before[a], before[b], windows));
            } else if b == i {
                assert(path_lt(before[a], x, windows));
            } else if a == i {
                assert(after[b] == before[b - 1]);
                if b - 1 > i {
                    assert(path_lt(before[i as int], before[b - 1], windows));
                    lemma_path_order(x, before[i as int], before[b - 1], windows);
                }
            } else if a < i {
                assert(path_lt(before[a], before[b - 1], windows));
            } else {
                assert(path_lt(before[a - 1], before[b - 1], windows));
            }
        }
        assert forall|k: int| 0 <= k < sorted@.len() implies part_views(
            (#[trigger] sorted@[k]).parts@,
        ) == components(sorted@[k].path@, windows) by {
            if k < i {
                assert(sorted@[k] == old(sorted)@[k]);
            } else if k > i {
                assert(sorted@[k] == old(sorted)@[k - 1]);
            }
        }
    }
    true
}

/// `items` sorted as paths, each path once. Of strings that are the same
/// path the first of `items` stays.
pub fn sorted_unique(items: &Vec<String>, windows: bool) -> (out: Vec<String>)
    ensures
        sorted_paths_of(views(out@), views(items@), windows),
{
    let ghost all = views(items@);
    let mut sorted: Vec<Keyed> = Vec::new();
    let mut i: usize = 0;
    while i < items.len()
        invariant
            i <= items.len(),
            all == views(items@),
            keyed_ok(sorted@, windows),
            sorted_paths_of(keyed_paths(sorted@), all.take(i as int), windows),
        decreases items.len() - i,
    {
        let ghost before = keyed_paths(sorted@);
        let ghost x = items@[i as int]@;
        let parts = split_components(&to_chars(items[i].as_str()), windows);
        let added = insert_path(&mut sorted, Keyed { path: items[i].clone(), parts }, windows);
        proof {
            assert(all[i as int] == x);
            if added {
                let at = choose|at: int|
                    0 <= at <= before.len() && keyed_paths(sorted@) == #[trigger] before.insert(
                        at,
                        x,
                    );
                lemma_sorted_paths_add(before, all, i as int, at, windows);
            } else {
                lemma_sorted_paths_skip(before, all, i as int, windows);
            }
        }
        i += 1;
    }
    assert(all.take(items.len() as int) == all);
    let mut out: Vec<String> = Vec::new();
    let mut j: usize = 0;
    while j < sorted.len()
        invariant
            j <= sorted.len(),
            views(out@) == keyed_paths(sorted@).take(j as int),
        decreases sorted.len() - j,
    {
        let ghost prev = views(out@);
        out.push(sorted[j].path.clone());
        assert(views(out@) =~= prev.push(sorted@[j as int].path@));
        j += 1;
        assert(views(out@) =~= keyed_paths(sorted@).take(j as int));
    }
    assert(keyed_paths(sorted@).take(sorted.len() as int) == keyed_paths(sorted@));
    out
}

} // verus!
