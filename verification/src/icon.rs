//! Icons for catalog entries.
//!
//! An icon is, in this order: an image that lies beside the game file, as a
//! `data:` URI; a remote image named by the title id in the file name; the
//! placeholder.

use crate::paths::{opt_view, GamePath};
use crate::text::{
    contains_seq, ends_with_seq, is_alnum_char, is_ascii_alnum, is_ascii_hex, is_hex_char,
    joined, subvec, to_chars, to_string, upper_chars, upper_seq,
};
use vstd::prelude::*;
use vstd::string::StringExecFns;

verus! {

/// The length of a title id.
pub const TITLE_ID_LEN: usize = 16;

/// A title id: 16 hexadecimal digits.
pub open spec fn is_title_id(s: Seq<char>) -> bool {
    s.len() == 16 && forall|i: int| 0 <= i < 16 ==> is_ascii_hex(#[trigger] s[i])
}

/// At index `i` of `name` stands a title id that letters and digits do not
/// continue on either side.
pub open spec fn title_id_at(name: Seq<char>, i: int) -> bool {
    &&& 0 <= i && i + 16 <= name.len()
    &&& is_title_id(name.subrange(i, i + 16))
    &&& (i == 0 || !is_ascii_alnum(name[i - 1]))
    &&& (i + 16 == name.len() || !is_ascii_alnum(name[i + 16]))
}

/// The first title id of `name` at or after index `i`.
pub open spec fn title_id_from(name: Seq<char>, i: int) -> Option<Seq<char>>
    decreases name.len() - i,
{
    if i < 0 || i + 16 > name.len() {
        None
    } else if title_id_at(name, i) {
        Some(name.subrange(i, i + 16))
    } else {
        title_id_from(name, i + 1)
    }
}

/// The first title id in a file name.
pub open spec fn title_id_of(name: Seq<char>) -> Option<Seq<char>> {
    title_id_from(name, 0)
}

/// The address of the remote icon of a title id.
pub open spec fn title_icon_url(id: Seq<char>) -> Seq<char> {
    "https://tinfoil.media/ti/"@ + upper_seq(id) + "/512/512"@
}

/// The remote icon that a file name leads to, if it holds a title id.
pub open spec fn title_id_icon(file_name: Option<Seq<char>>) -> Option<Seq<char>> {
    match file_name {
        Some(name) => match title_id_of(name) {
            Some(id) => Some(title_icon_url(id)),
            None => None,
        },
        None => None,
    }
}

/// The address of the placeholder image.
pub open spec fn placeholder_icon() -> Seq<char> {
    "https://via.placeholder.com/512x512/151515/FFFFFF?text=No+Icon"@
}

/// The icon of an entry: the local image where there is one, else the remote
/// icon of the title id, else the placeholder.
pub open spec fn choose_icon(local: Option<Seq<char>>, file_name: Option<Seq<char>>) -> Seq<char> {
    match local {
        Some(uri) => uri,
        None => match title_id_icon(file_name) {
            Some(url) => url,
            None => placeholder_icon(),
        },
    }
}

/// Where a title id stands at `k` and none stands at `i` or between, the
/// search from `i` finds the one at `k`.
pub proof fn lemma_title_id_from_finds(name: Seq<char>, i: int, k: int)
    requires
        0 <= i <= k,
        title_id_at(name, k),
        forall|j: int| i <= j < k ==> !title_id_at(name, j),
    ensures
        title_id_from(name, i) == Some(name.subrange(k, k + 16)),
    decreases k - i,
{
    if i < k {
        lemma_title_id_from_finds(name, i + 1, k);
    }
}

/// Where no title id stands at `i` or after, the search from `i` finds none.
pub proof fn lemma_title_id_from_none(name: Seq<char>, i: int)
    requires
        forall|j: int| i <= j ==> !title_id_at(name, j),
    ensures
        title_id_from(name, i) is None,
    decreases name.len() - i,
{
    if 0 <= i && i + 16 <= name.len() {
        lemma_title_id_from_none(name, i + 1);
    }
}

/// A file name that holds a run of 16 hexadecimal digits between characters
/// that are neither letters nor digits leads to the remote icon of the first
/// such run, upper-cased.
pub proof fn lemma_title_id_icon_found(name: Seq<char>, k: int)
    requires
        title_id_at(name, k),
        forall|j: int| 0 <= j < k ==> !title_id_at(name, j),
    ensures
        title_id_icon(Some(name)) == Some(
            "https://tinfoil.media/ti/"@ + upper_seq(name.subrange(k, k + 16)) + "/512/512"@,
        ),
{
    lemma_title_id_from_finds(name, 0, k);
}

/// A file name without such a run leads to no remote icon.
pub proof fn lemma_title_id_icon_absent(name: Seq<char>)
    requires
        forall|j: int| !title_id_at(name, j),
    ensures
        title_id_icon(Some(name)) is None,
{
    lemma_title_id_from_none(name, 0);
}

/// The placeholder is not empty and carries its "no icon" mark.
pub proof fn lemma_placeholder_is_marked()
    ensures
        placeholder_icon().len() > 0,
        contains_seq(placeholder_icon(), "No+Icon"@),
        contains_seq(placeholder_icon(), "placeholder"@),
        forall|local: Option<Seq<char>>, file_name: Option<Seq<char>>|
            local is None && title_id_icon(file_name) is None ==> #[trigger] choose_icon(
                local,
                file_name,
            ) == placeholder_icon(),
{
    reveal_strlit("https://via.placeholder.com/512x512/151515/FFFFFF?text=No+Icon");
    reveal_strlit("No+Icon");
    reveal_strlit("placeholder");
    let p = placeholder_icon();
    assert(p.len() == 62);
    assert(p.subrange(55, 62) =~= "No+Icon"@);
    assert(crate::text::occurs_at(p, "No+Icon"@, 55));
    assert(p.subrange(12, 23) =~= "placeholder"@);
    assert(crate::text::occurs_at(p, "placeholder"@, 12));
}

/// Whether `v` is a title id.
pub fn is_title_id_chars(v: &Vec<char>) -> (r: bool)
    ensures
        r == is_title_id(v@),
{
    if v.len() != TITLE_ID_LEN {
        return false;
    }
    let mut i: usize = 0;
    while i < TITLE_ID_LEN
        invariant
            i <= 16,
            v.len() == 16,
            forall|k: int| 0 <= k < i ==> is_ascii_hex(#[trigger] v@[k]),
        decreases 16 - i,
    {
        if !is_hex_char(v[i]) {
            return false;
        }
        i += 1;
    }
    true
}

/// Whether a title id stands at index `i` of `name`, with no letter or digit
/// on either side.
pub fn title_id_at_chars(name: &Vec<char>, i: usize) -> (r: bool)
    ensures
        r == title_id_at(name@, i as int),
{
    if name.len() < TITLE_ID_LEN || i > name.len() - TITLE_ID_LEN {
        return false;
    }
    if i > 0 && is_alnum_char(name[i - 1]) {
        return false;
    }
    if i + TITLE_ID_LEN < name.len() && is_alnum_char(name[i + TITLE_ID_LEN]) {
        return false;
    }
    let word = subvec(name, i, i + TITLE_ID_LEN);
    is_title_id_chars(&word)
}

/// The first title id in a file name.
pub fn find_title_id(name: &Vec<char>) -> (id: Option<Vec<char>>)
    ensures
        id is Some <==> title_id_of(name@) is Some,
        id matches Some(v) ==> v@ == title_id_of(name@)->0,
{
    if name.len() < TITLE_ID_LEN {
        return None;
    }
    let last: usize = name.len() - TITLE_ID_LEN;
    let mut i: usize = 0;
    while i <= last
        invariant
            i <= last + 1,
            last == name.len() - 16,
            title_id_of(name@) == title_id_from(name@, i as int),
        decreases last + 1 - i,
    {
        if title_id_at_chars(name, i) {
            return Some(subvec(name, i, i + TITLE_ID_LEN));
        }
        i += 1;
    }
    None
}

/// The remote icon that the file name of `path` leads to.
pub fn title_id_icon_url(path: &GamePath) -> (icon: Option<String>)
    ensures
        opt_view(icon) == title_id_icon(path@.file_name),
{
    match &path.file_name {
        Some(name) => {
            let chars = to_chars(name.as_str());
            match find_title_id(&chars) {
                Some(id) => {
                    let head = to_chars("https://tinfoil.media/ti/");
                    let tail = to_chars("/512/512");
                    Some(to_string(&joined(&joined(&head, &upper_chars(&id)), &tail)))
                },
                None => None,
            }
        },
        None => None,
    }
}

/// The placeholder image.
pub fn default_icon() -> (icon: String)
    ensures
        icon@ == placeholder_icon(),
{
    String::from_str("https://via.placeholder.com/512x512/151515/FFFFFF?text=No+Icon")
}

/// The icon of an entry, given the local image that was found for it.
pub fn resolve_icon(local: Option<String>, path: &GamePath) -> (icon: Option<String>)
    ensures
        opt_view(icon) == Some(choose_icon(opt_view(local), path@.file_name)),
{
    match local {
        Some(uri) => Some(uri),
        None => match title_id_icon_url(path) {
            Some(url) => Some(url),
            None => Some(default_icon()),
        },
    }
}

/// The standard base64 text of `data`, with padding, as the `base64` crate
/// encodes it.
pub uninterp spec fn base64_standard(data: Seq<u8>) -> Seq<char>;

/// The base64 text of `len` bytes is short enough to be allocated: its
/// length, four characters for every three bytes begun, is at most
/// `isize::MAX`.
pub open spec fn fits_base64(len: nat) -> bool {
    len / 3 * 4 + 4 <= isize::MAX
}

/// Whether the bytes of an image are few enough to be embedded in a `data:`
/// URI.
pub fn can_embed(data: &[u8]) -> (r: bool)
    ensures
        r == fits_base64(data@.len()),
{
    let limit: usize = isize::MAX as usize;
    data.len() / 3 <= (limit - 4) / 4
}

/// The base64 text of `data`.
///
/// Trusted: calls `Engine::encode` on `base64::engine::general_purpose::STANDARD`.
/// The contract only gives the result its name. The call panics where the
/// length of the text overflows `usize` or is more than a vector can hold;
/// `requires` leaves those inputs out.
#[verifier::external_body]
fn base64_encode(data: &[u8]) -> (text: String)
    requires
        fits_base64(data@.len()),
    ensures
        text@ == base64_standard(data@),
{
    base64::Engine::encode(&base64::engine::general_purpose::STANDARD, data)
}

/// The media type of an icon file.
pub open spec fn mime_type(png: bool) -> Seq<char> {
    if png {
        "image/png"@
    } else {
        "image/jpeg"@
    }
}

/// The `data:` URI that embeds the bytes of an image.
pub open spec fn data_uri_spec(png: bool, data: Seq<u8>) -> Seq<char> {
    "data:"@ + mime_type(png) + ";base64,"@ + base64_standard(data)
}

/// The `data:` URI that embeds `data` as a PNG or a JPEG image.
pub fn data_uri(png: bool, data: &[u8]) -> (uri: String)
    requires
        fits_base64(data@.len()),
    ensures
        uri@ == data_uri_spec(png, data@),
{
    let mut uri = String::from_str("data:");
    if png {
        uri.append("image/png");
    } else {
        uri.append("image/jpeg");
    }
    uri.append(";base64,");
    let body = base64_encode(data);
    uri.append(body.as_str());
    uri
}

/// How many icon names are tried beside the game file.
pub const SIBLING_ICONS: usize = 6;

/// How many icon names are tried in the folder named after the game.
pub const FOLDER_ICONS: usize = 4;

/// The icon file names, in the order in which they are tried.
pub open spec fn icon_name(k: int) -> Seq<char> {
    if k == 0 {
        "icon.jpg"@
    } else if k == 1 {
        "icon.png"@
    } else if k == 2 {
        "cover.jpg"@
    } else if k == 3 {
        "cover.png"@
    } else if k == 4 {
        "boxart.jpg"@
    } else {
        "boxart.png"@
    }
}

/// Whether the icon name of index `k` is that of a PNG image.
pub open spec fn icon_is_png(k: int) -> bool {
    k % 2 == 1
}

/// The PNG names are those that end in `.png`.
pub proof fn lemma_icon_is_png(k: int)
    requires
        0 <= k < 6,
    ensures
        icon_is_png(k) <==> ends_with_seq(icon_name(k), ".png"@),
{
    reveal_strlit("icon.jpg");
    reveal_strlit("icon.png");
    reveal_strlit("cover.jpg");
    reveal_strlit("cover.png");
    reveal_strlit("boxart.jpg");
    reveal_strlit("boxart.png");
    reveal_strlit(".png");
    let n = icon_name(k);
    let tail = n.subrange(n.len() - 4, n.len() as int);
    if icon_is_png(k) {
        assert(tail =~= ".png"@);
    } else {
        assert(tail[1] == 'j');
    }
}

/// The icon file name of index `k`.
pub fn icon_name_str(k: usize) -> (name: &'static str)
    requires
        k < 6,
    ensures
        name@ == icon_name(k as int),
{
    if k == 0 {
        "icon.jpg"
    } else if k == 1 {
        "icon.png"
    } else if k == 2 {
        "cover.jpg"
    } else if k == 3 {
        "cover.png"
    } else if k == 4 {
        "boxart.jpg"
    } else {
        "boxart.png"
    }
}

} // verus!
