//! Catalog ids: a fingerprint of the path string.
//!
//! The id of a path is the MD5 digest of its UTF-8 bytes, written as 32
//! lower-case hexadecimal digits. It depends on the path string alone.

use crate::text::push_char;
use vstd::prelude::*;
use vstd::string::StringSliceAdditionalSpecFns;

verus! {

/// The MD5 digest of `data`, as the `md5` crate computes it.
pub uninterp spec fn md5_digest(data: Seq<u8>) -> Seq<u8>;

/// The 16 bytes of the MD5 digest of `data`.
///
/// Trusted: calls `md5::compute` and takes the bytes out of the `Digest`
/// that it returns. The contract only gives that result its name; the
/// length of 16 is that of the array.
#[verifier::external_body]
fn md5_compute(data: &[u8]) -> (digest: [u8; 16])
    ensures
        digest@ == md5_digest(data@),
{
    md5::compute(data).0
}

/// The lower-case hexadecimal digit of a value below 16.
pub open spec fn hex_digit(n: u8) -> char {
    if n < 10 {
        (('0' as u8 + n) as u8) as char
    } else {
        (('a' as u8 + (n - 10)) as u8) as char
    }
}

/// Each byte written as two lower-case hexadecimal digits, high digit first.
pub open spec fn hex_lower(bytes: Seq<u8>) -> Seq<char> {
    Seq::new(
        2 * bytes.len(),
        |i: int|
            if i % 2 == 0 {
                hex_digit(bytes[i / 2] / 16)
            } else {
                hex_digit(bytes[i / 2] % 16)
            },
    )
}

/// The catalog id of a path string.
pub open spec fn spec_assign_id(path: Seq<char>) -> Seq<char> {
    hex_lower(md5_digest(vstd::utf8::encode_utf8(path)))
}

/// Equal path strings have equal ids: the id is a function of the string.
pub proof fn lemma_assign_id_deterministic(p: Seq<char>, q: Seq<char>)
    requires
        p == q,
    ensures
        spec_assign_id(p) == spec_assign_id(q),
{
}

/// Two values below 16 with the same digit are the same value.
proof fn lemma_hex_digit_injective(m: u8, n: u8)
    requires
        m < 16,
        n < 16,
        hex_digit(m) == hex_digit(n),
    ensures
        m == n,
{
    assert(hex_digit(m) as u32 == if m < 10 {
        48 + m
    } else {
        87 + m
    });
    assert(hex_digit(n) as u32 == if n < 10 {
        48 + n
    } else {
        87 + n
    });
}

/// The hexadecimal writing loses nothing: byte sequences that are written
/// the same are the same.
pub proof fn lemma_hex_lower_injective(a: Seq<u8>, b: Seq<u8>)
    requires
        hex_lower(a) == hex_lower(b),
    ensures
        a == b,
{
    let x = hex_lower(a);
    let y = hex_lower(b);
    assert(x.len() == 2 * a.len() && y.len() == 2 * b.len());
    assert forall|i: int| 0 <= i < a.len() implies a[i] == b[i] by {
        assert(x[2 * i] == y[2 * i]);
        assert(x[2 * i + 1] == y[2 * i + 1]);
        lemma_hex_digit_injective(a[i] / 16, b[i] / 16);
        lemma_hex_digit_injective(a[i] % 16, b[i] % 16);
    }
    assert(a =~= b);
}

/// Two paths have the same id only where MD5 gives their bytes the same
/// digest, and different paths have different bytes. Whether MD5 tells two
/// byte sequences apart is not stated: it has collisions.
pub proof fn lemma_ids_differ_where_digests_differ(p: Seq<char>, q: Seq<char>)
    ensures
        spec_assign_id(p) == spec_assign_id(q) <==> md5_digest(vstd::utf8::encode_utf8(p))
            == md5_digest(vstd::utf8::encode_utf8(q)),
        p != q ==> vstd::utf8::encode_utf8(p) != vstd::utf8::encode_utf8(q),
{
    if spec_assign_id(p) == spec_assign_id(q) {
        lemma_hex_lower_injective(
            md5_digest(vstd::utf8::encode_utf8(p)),
            md5_digest(vstd::utf8::encode_utf8(q)),
        );
    }
    vstd::utf8::encode_utf8_decode_utf8(p);
    vstd::utf8::encode_utf8_decode_utf8(q);
}

/// The hexadecimal digit of a value below 16.
pub fn hex_digit_char(n: u8) -> (c: char)
    requires
        n < 16,
    ensures
        c == hex_digit(n),
{
    if n < 10 {
        ('0' as u8 + n) as char
    } else {
        ('a' as u8 + (n - 10)) as char
    }
}

/// `bytes` in lower-case hexadecimal.
pub fn to_hex_lower(bytes: &[u8]) -> (text: String)
    ensures
        text@ == hex_lower(bytes@),
{
    let mut text = String::new();
    let mut i: usize = 0;
    while i < bytes.len()
        invariant
            i <= bytes.len(),
            text@ == hex_lower(bytes@.take(i as int)),
        decreases bytes.len() - i,
    {
        let b: u8 = bytes[i];
        push_char(&mut text, hex_digit_char(b / 16));
        push_char(&mut text, hex_digit_char(b % 16));
        i += 1;
        assert(text@ =~= hex_lower(bytes@.take(i as int)));
    }
    assert(bytes@.take(bytes.len() as int) == bytes@);
    text
}

/// The catalog id of `path`: 32 lower-case hexadecimal digits that depend on
/// the path string alone.
pub fn assign_id(path: &str) -> (id: String)
    ensures
        id@ == spec_assign_id(path@),
        id@.len() == 32,
{
    let digest = md5_compute(path.as_bytes());
    to_hex_lower(digest.as_slice())
}

} // verus!
