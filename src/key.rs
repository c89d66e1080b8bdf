//! Cache keys: a URL's SHA-256 digest, and the on-disk paths named after it.
use vstd::prelude::*;

use vstd::utf8::encode_utf8;

use crate::text::{join, join_path};

verus! {

/// The SHA-256 digest of a byte string.
pub uninterp spec fn sha256_of(data: Seq<u8>) -> Seq<u8>;

/// Relies on sha2's `Sha256::digest`: the SHA-256 digest of `data`, whose
/// output size is 32 bytes.
#[verifier::external_body]
fn sha256(data: &[u8]) -> (r: Vec<u8>)
    ensures
        r@ == sha256_of(data@),
        r@.len() == 32,
{
    <sha2::Sha256 as sha2::Digest>::digest(data).to_vec()
}

/// The lower-case hexadecimal digit of `d`, for `d < 16`.
pub open spec fn hex_digit(d: int) -> char {
    seq!['0', '1', '2', '3', '4', '5', '6', '7', '8', '9', 'a', 'b', 'c', 'd', 'e', 'f'][d]
}

/// Lower-case hexadecimal: two digits per byte, the high half first.
pub open spec fn hex_of(b: Seq<u8>) -> Seq<char>
    decreases b.len(),
{
    if b.len() == 0 {
        seq![]
    } else {
        seq![hex_digit(b[0] as int / 16), hex_digit(b[0] as int % 16)] + hex_of(b.drop_first())
    }
}

/// Relies on hex's `encode`: each byte becomes two lower-case hexadecimal
/// digits, the high half first.
#[verifier::external_body]
fn to_hex(b: &[u8]) -> (r: String)
    ensures
        r@ == hex_of(b@),
{
    hex::encode(b)
}

/// The cache key of a URL: the SHA-256 digest of its UTF-8 bytes.
pub open spec fn key_of(url: Seq<char>) -> Seq<u8> {
    sha256_of(encode_utf8(url))
}

/// The file-name stem shared by a URL's artifact and token files.
pub open spec fn stem_of(url: Seq<char>) -> Seq<char> {
    hex_of(key_of(url))
}

/// The suffix of a committed artifact's file name.
pub open spec fn artifact_suffix() -> Seq<char> {
    seq!['.', 'a', 'r', 't', 'i', 'f', 'a', 'c', 't']
}

/// The suffix of a revalidation token's file name.
pub open spec fn token_suffix() -> Seq<char> {
    seq!['.', 'e', 't', 'a', 'g']
}

/// The marker between an artifact's path and an attempt's identifier.
pub open spec fn part_marker() -> Seq<char> {
    seq!['.', 'p', 'a', 'r', 't', '-']
}

pub open spec fn artifact_path_of(dir: Seq<char>, url: Seq<char>) -> Seq<char> {
    join_path(dir, stem_of(url) + artifact_suffix())
}

pub open spec fn token_path_of(dir: Seq<char>, url: Seq<char>) -> Seq<char> {
    join_path(dir, stem_of(url) + token_suffix())
}

pub open spec fn temp_path_of(artifact: Seq<char>, attempt_id: Seq<char>) -> Seq<char> {
    artifact + part_marker() + attempt_id
}

/// Derives the cache key of a URL.
pub fn derive_key(url: &str) -> (r: Vec<u8>)
    ensures
        r@ == key_of(url@),
        r@.len() == 32,
{
    sha256(url.as_bytes())
}

/// The hexadecimal form of a URL's cache key.
pub fn key_hex(url: &str) -> (r: String)
    ensures
        r@ == stem_of(url@),
{
    let k = derive_key(url);
    to_hex(k.as_slice())
}

/// `<dir>/<hex(key)>.artifact`: where the URL's artifact is committed.
pub fn artifact_path(dir: &str, url: &str) -> (r: String)
    ensures
        r@ == artifact_path_of(dir@, url@),
{
    let mut name = key_hex(url);
    name.append(".artifact");
    proof {
        reveal_strlit(".artifact");
    }
    join(dir, name.as_str())
}

/// `<dir>/<hex(key)>.etag`: where the URL's revalidation token is kept.
pub fn token_path(dir: &str, url: &str) -> (r: String)
    ensures
        r@ == token_path_of(dir@, url@),
{
    let mut name = key_hex(url);
    name.append(".etag");
    proof {
        reveal_strlit(".etag");
    }
    join(dir, name.as_str())
}

/// `<artifact>.part-<attempt_id>`: the file that one download attempt writes.
pub fn temp_path(artifact: &str, attempt_id: &str) -> (r: String)
    ensures
        r@ == temp_path_of(artifact@, attempt_id@),
{
    let mut p = String::from_str(artifact);
    p.append(".part-");
    proof {
        reveal_strlit(".part-");
    }
    p.append(attempt_id);
    p
}

/// Two byte strings of the same length with the same hexadecimal form are equal.
pub proof fn lemma_hex_injective(a: Seq<u8>, b: Seq<u8>)
    requires
        hex_of(a) == hex_of(b),
    ensures
        a == b,
    decreases a.len(),
{
    lemma_hex_len(a);
    lemma_hex_len(b);
    if a.len() > 0 {
        let ha = hex_of(a);
        let hb = hex_of(b);
        assert(ha[0] == hb[0] && ha[1] == hb[1]);
        assert(hex_of(a.drop_first()) == ha.subrange(2, ha.len() as int));
        assert(hex_of(b.drop_first()) == hb.subrange(2, hb.len() as int));
        lemma_hex_injective(a.drop_first(), b.drop_first());
        assert(a[0] == b[0]);
        assert(a =~= seq![a[0]] + a.drop_first());
        assert(b =~= seq![b[0]] + b.drop_first());
    }
}

pub proof fn lemma_hex_len(a: Seq<u8>)
    ensures
        hex_of(a).len() == 2 * a.len(),
    decreases a.len(),
{
    if a.len() > 0 {
        lemma_hex_len(a.drop_first());
    }
}

/// Distinct keys give distinct artifact paths: two URLs share an artifact
/// path in a directory only where their keys, the SHA-256 digests of their
/// bytes, are equal. The key itself is a function of the URL alone, the same
/// on every call.
pub proof fn lemma_paths_follow_keys(dir: Seq<char>, u1: Seq<char>, u2: Seq<char>)
    requires
        artifact_path_of(dir, u1) == artifact_path_of(dir, u2),
    ensures
        key_of(u1) == key_of(u2),
        stem_of(u1) == stem_of(u2),
{
    let x = stem_of(u1) + artifact_suffix();
    let y = stem_of(u2) + artifact_suffix();
    let p = artifact_path_of(dir, u1);
    let d = if dir.len() == 0 || dir.last() == '/' { dir } else { dir + seq!['/'] };
    assert(p == d + x);
    assert(p == d + y);
    assert(x =~= p.subrange(d.len() as int, p.len() as int));
    assert(y =~= p.subrange(d.len() as int, p.len() as int));
    let m = stem_of(u1).len();
    assert(stem_of(u1) =~= x.subrange(0, m as int));
    assert(stem_of(u2) =~= y.subrange(0, m as int));
    lemma_hex_injective(key_of(u1), key_of(u2));
}

} // verus!
