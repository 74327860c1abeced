//! Reader for the emulator's ini-like configuration text.
//!
//! The reader takes the text of a configuration file and gives the game
//! directories that it declares, in the order of their lines.

use crate::text::{
    contains_chars, contains_seq, ends_with_chars, ends_with_seq, find_char, find_char_from,
    first_index_of, lower_chars, lower_seq, starts_with_chars, starts_with_seq, subvec, to_chars,
    to_string, trim_chars, trimmed, views,
};
use vstd::prelude::*;

verus! {

/// `v` without one leading and one trailing double quote, where it has them.
pub open spec fn strip_quotes(v: Seq<char>) -> Seq<char> {
    let a = if v.len() > 0 && v[0] == '"' {
        v.drop_first()
    } else {
        v
    };
    if a.len() > 0 && a.last() == '"' {
        a.drop_last()
    } else {
        a
    }
}

/// A lower-cased key names a game directory: it holds one of the directory
/// words, and it holds `path` or ends with `gamedir` or `gamedirs`.
pub open spec fn is_game_dir_key(key: Seq<char>) -> bool {
    &&& (contains_seq(key, "gamedir"@) || contains_seq(key, "gamedirs"@) || contains_seq(
        key,
        "game_directory"@,
    ))
    &&& (contains_seq(key, "path"@) || ends_with_seq(key, "gamedir"@) || ends_with_seq(
        key,
        "gamedirs"@,
    ))
}

/// The key of a trimmed line that holds `=`: what stands before the first
/// `=`, trimmed and lower-cased.
pub open spec fn line_key(line: Seq<char>) -> Seq<char> {
    lower_seq(trimmed(line.take(first_index_of(line, '=') as int)))
}

/// The value of a trimmed line that holds `=`: what stands after the first
/// `=`, trimmed and with one layer of double quotes taken off.
pub open spec fn line_value(line: Seq<char>) -> Seq<char> {
    strip_quotes(trimmed(line.skip(first_index_of(line, '=') as int + 1)))
}

/// The game directory that one line declares, if it declares one.
///
/// Blank lines, comments (`#`), section headers (`[`), lines without `=`,
/// lines with an empty value, keys that name no game directory and values in
/// the serialized-list form `@ByteArray(` declare none.
pub open spec fn line_game_dir(raw: Seq<char>) -> Option<Seq<char>> {
    let line = trimmed(raw);
    if line.len() == 0 || line[0] == '#' || line[0] == '[' {
        None
    } else if first_index_of(line, '=') >= line.len() {
        None
    } else if line_value(line).len() == 0 {
        None
    } else if !is_game_dir_key(line_key(line)) {
        None
    } else if starts_with_seq(line_value(line), "@ByteArray("@) {
        None
    } else {
        Some(line_value(line))
    }
}

/// The game directories that a configuration text declares, line by line.
pub open spec fn game_dirs(text: Seq<char>) -> Seq<Seq<char>>
    decreases text.len(),
{
    let n = first_index_of(text, '\n');
    let head = match line_game_dir(text.take(n as int)) {
        Some(d) => seq![d],
        None => seq![],
    };
    if n < text.len() {
        head + game_dirs(text.skip(n as int + 1))
    } else {
        head
    }
}

/// What a configuration file declares: nothing where it could not be read.
pub open spec fn declared_game_dirs(contents: Option<Seq<char>>) -> Seq<Seq<char>> {
    match contents {
        Some(text) => game_dirs(text),
        None => seq![],
    }
}

/// A value in the serialized-list form is never taken for a directory,
/// whatever the key.
pub proof fn lemma_byte_array_rejected(raw: Seq<char>)
    requires
        starts_with_seq(line_value(trimmed(raw)), "@ByteArray("@),
    ensures
        line_game_dir(raw) is None,
{
}

/// A line that declares a directory declares a non-empty one, and its key
/// holds a directory word as well as `path` or one of the endings.
pub proof fn lemma_accepted_line(raw: Seq<char>)
    requires
        line_game_dir(raw) is Some,
    ensures
        line_game_dir(raw)->0.len() > 0,
        line_game_dir(raw)->0 == line_value(trimmed(raw)),
        is_game_dir_key(line_key(trimmed(raw))),
        !starts_with_seq(line_game_dir(raw)->0, "@ByteArray("@),
{
}

/// Takes one leading and one trailing double quote off `v`.
pub fn strip_quote_chars(v: &Vec<char>) -> (out: Vec<char>)
    ensures
        out@ == strip_quotes(v@),
{
    let lo: usize = if v.len() > 0 && v[0] == '"' {
        1
    } else {
        0
    };
    let hi: usize = if v.len() > lo && v[v.len() - 1] == '"' {
        v.len() - 1
    } else {
        v.len()
    };
    proof {
        let a = if v@.len() > 0 && v@[0] == '"' {
            v@.drop_first()
        } else {
            v@
        };
        assert(a == v@.subrange(lo as int, v.len() as int));
        if a.len() > 0 {
            assert(a.last() == v@[v.len() - 1]);
        }
        assert(strip_quotes(v@) == v@.subrange(lo as int, hi as int));
    }
    subvec(v, lo, hi)
}

/// Whether a lower-cased key names a game directory.
pub fn is_game_dir_key_chars(key: &Vec<char>) -> (r: bool)
    ensures
        r == is_game_dir_key(key@),
{
    let gamedir = to_chars("gamedir");
    let gamedirs = to_chars("gamedirs");
    let game_directory = to_chars("game_directory");
    let path = to_chars("path");
    let names = contains_chars(key, &gamedir) || contains_chars(key, &gamedirs) || contains_chars(
        key,
        &game_directory,
    );
    let places = contains_chars(key, &path) || ends_with_chars(key, &gamedir) || ends_with_chars(
        key,
        &gamedirs,
    );
    names && places
}

/// The game directory that one line of a configuration text declares.
pub fn parse_line(raw: &Vec<char>) -> (dir: Option<Vec<char>>)
    ensures
        dir is Some <==> line_game_dir(raw@) is Some,
        dir matches Some(d) ==> d@ == line_game_dir(raw@)->0,
{
    let line = trim_chars(raw);
    if line.len() == 0 || line[0] == '#' || line[0] == '[' {
        return None;
    }
    let eq = find_char(&line, '=');
    if eq >= line.len() {
        return None;
    }
    let key = lower_chars(&trim_chars(&subvec(&line, 0, eq)));
    let value = strip_quote_chars(&trim_chars(&subvec(&line, eq + 1, line.len())));
    if value.len() == 0 {
        return None;
    }
    if !is_game_dir_key_chars(&key) {
        return None;
    }
    let marker = to_chars("@ByteArray(");
    if starts_with_chars(&value, &marker) {
        return None;
    }
    Some(value)
}

/// The game directories that the text of a configuration file declares, in
/// the order of their lines; none where the file could not be read.
pub fn read_yuzu_game_dirs_from_config(contents: Option<&str>) -> (dirs: Vec<String>)
    ensures
        views(dirs@) == declared_game_dirs(
            match contents {
                Some(text) => Some(text@),
                None => None,
            },
        ),
{
    let mut dirs: Vec<String> = Vec::new();
    let text = match contents {
        Some(text) => to_chars(text),
        None => {
            assert(views(dirs@) =~= Seq::<Seq<char>>::empty());
            return dirs;
        },
    };
    let mut pos: usize = 0;
    let mut done = false;
    assert(text@.skip(0) == text@);
    while !done
        invariant
            pos <= text.len(),
            !done ==> game_dirs(text@) == views(dirs@) + game_dirs(text@.skip(pos as int)),
            done ==> game_dirs(text@) == views(dirs@),
        decreases text.len() - pos + (if done { 0int } else { 1int }),
    {
        let ghost rest = text@.skip(pos as int);
        let ghost before = views(dirs@);
        let end = find_char_from(&text, pos, '\n');
        let line = subvec(&text, pos, end);
        assert(line@ == rest.take(end - pos));
        match parse_line(&line) {
            Some(d) => {
                let s = to_string(&d);
                dirs.push(s);
                assert(views(dirs@) =~= before + seq![d@]);
            },
            None => {},
        }
        if end < text.len() {
            assert(rest.skip(end - pos + 1) == text@.skip(end + 1));
            pos = end + 1;
        } else {
            done = true;
        }
    }
    dirs
}

} // verus!
