//! Password digests: SHA-256 of the bytes, written in the bcrypt flavour of
//! Base64 (alphabet `./A-Za-z0-9`, no padding).

use base64ct::Encoding;
use sha2::Digest;
use vstd::prelude::*;

verus! {

/// The SHA-256 digest of `data`, as the `sha2` crate computes it.
pub uninterp spec fn sha256(data: Seq<u8>) -> Seq<u8>;

/// The character that the bcrypt Base64 alphabet uses for the 6-bit value `v`:
/// `./` for 0 and 1, then `A-Z`, `a-z` and `0-9`.
pub open spec fn bcrypt_char(v: int) -> char {
    if v < 2 {
        (46 + v) as char
    } else if v < 28 {
        (65 + (v - 2)) as char
    } else if v < 54 {
        (97 + (v - 28)) as char
    } else {
        (48 + (v - 54)) as char
    }
}

/// Whether `c` belongs to the bcrypt Base64 alphabet.
pub open spec fn is_bcrypt_char(c: char) -> bool {
    ||| c == '.' || c == '/'
    ||| 'A' <= c <= 'Z'
    ||| 'a' <= c <= 'z'
    ||| '0' <= c <= '9'
}

/// The unpadded bcrypt Base64 encoding of `b`: each group of three bytes
/// becomes four characters, a final group of one or two bytes becomes two or
/// three characters.
pub open spec fn bcrypt_base64(b: Seq<u8>) -> Seq<char>
    decreases b.len(),
{
    if b.len() == 0 {
        seq![]
    } else if b.len() == 1 {
        let x0 = b[0] as int;
        seq![bcrypt_char(x0 / 4), bcrypt_char((x0 % 4) * 16)]
    } else if b.len() == 2 {
        let (x0, x1) = (b[0] as int, b[1] as int);
        seq![
            bcrypt_char(x0 / 4),
            bcrypt_char((x0 % 4) * 16 + x1 / 16),
            bcrypt_char((x1 % 16) * 4),
        ]
    } else {
        let (x0, x1, x2) = (b[0] as int, b[1] as int, b[2] as int);
        seq![
            bcrypt_char(x0 / 4),
            bcrypt_char((x0 % 4) * 16 + x1 / 16),
            bcrypt_char((x1 % 16) * 4 + x2 / 64),
            bcrypt_char(x2 % 64),
        ] + bcrypt_base64(b.skip(3))
    }
}

/// The number of characters of the unpadded Base64 encoding of `n` bytes.
pub open spec fn base64_len(n: nat) -> nat {
    (4 * n + 2) / 3
}

/// The stored form of a password hash: the bcrypt Base64 encoding of the
/// SHA-256 digest of `data`.
pub open spec fn hash_text(data: Seq<u8>) -> Seq<char> {
    bcrypt_base64(sha256(data))
}

/// `sha2::Sha256::digest` (through the `Digest` trait): the result is the
/// SHA-256 digest of `data`, whose output size the crate fixes at 32 bytes.
#[verifier::external_body]
fn sha256_digest(data: &[u8]) -> (r: Vec<u8>)
    ensures
        r@ == sha256(data@),
        r@.len() == 32,
{
    sha2::Sha256::digest(data).to_vec()
}

/// `base64ct::Base64Bcrypt::encode_string` (through the `Encoding` trait):
/// encodes `bytes` with the bcrypt alphabet and no padding. The crate panics
/// when four times the length overflows `usize`, so that input is excluded.
#[verifier::external_body]
fn encode_bcrypt_base64(bytes: &[u8]) -> (r: String)
    requires
        bytes@.len() * 4 <= usize::MAX,
    ensures
        r@ == bcrypt_base64(bytes@),
{
    base64ct::Base64Bcrypt::encode_string(bytes)
}

/// Every 6-bit value is written with a character of the alphabet.
proof fn lemma_bcrypt_char(v: int)
    requires
        0 <= v < 64,
    ensures
        is_bcrypt_char(bcrypt_char(v)),
{
}

/// The encoding of `b` has `base64_len(b.len())` characters, all of them from
/// the bcrypt alphabet.
pub proof fn lemma_bcrypt_base64_shape(b: Seq<u8>)
    ensures
        bcrypt_base64(b).len() == base64_len(b.len()),
        forall|i: int|
            0 <= i < bcrypt_base64(b).len() ==> is_bcrypt_char(#[trigger] bcrypt_base64(b)[i]),
    decreases b.len(),
{
    let tail = bcrypt_base64(b.skip(3));
    if b.len() >= 3 {
        lemma_bcrypt_base64_shape(b.skip(3));
    }
    let x0 = b[0] as int;
    let x1 = b[1] as int;
    let x2 = b[2] as int;
    if b.len() == 1 {
        lemma_bcrypt_char(x0 / 4);
        lemma_bcrypt_char((x0 % 4) * 16);
    } else if b.len() == 2 {
        lemma_bcrypt_char(x0 / 4);
        lemma_bcrypt_char((x0 % 4) * 16 + x1 / 16);
        lemma_bcrypt_char((x1 % 16) * 4);
    } else if b.len() >= 3 {
        lemma_bcrypt_char(x0 / 4);
        lemma_bcrypt_char((x0 % 4) * 16 + x1 / 16);
        lemma_bcrypt_char((x1 % 16) * 4 + x2 / 64);
        lemma_bcrypt_char(x2 % 64);
        assert forall|i: int| 0 <= i < bcrypt_base64(b).len() implies is_bcrypt_char(
            #[trigger] bcrypt_base64(b)[i],
        ) by {
            if i >= 4 {
                assert(bcrypt_base64(b)[i] == tail[i - 4]);
            }
        }
    }
}

/// Distinct 6-bit values are written with distinct characters.
proof fn lemma_bcrypt_char_injective(v: int, w: int)
    requires
        0 <= v < 64,
        0 <= w < 64,
        bcrypt_char(v) == bcrypt_char(w),
    ensures
        v == w,
{
    assert(bcrypt_char(v) as int == bcrypt_char(w) as int);
}

/// The bytes of a group are recovered from its 6-bit values.
proof fn lemma_group_bytes(x0: int, x1: int, x2: int, y0: int, y1: int, y2: int)
    requires
        0 <= x0 < 256,
        0 <= x1 < 256,
        0 <= x2 < 256,
        0 <= y0 < 256,
        0 <= y1 < 256,
        0 <= y2 < 256,
        x0 / 4 == y0 / 4,
        (x0 % 4) * 16 + x1 / 16 == (y0 % 4) * 16 + y1 / 16,
        (x1 % 16) * 4 + x2 / 64 == (y1 % 16) * 4 + y2 / 64,
        x2 % 64 == y2 % 64,
    ensures
        x0 == y0,
        x1 == y1,
        x2 == y2,
{
}

/// No two byte strings have the same bcrypt Base64 encoding.
pub proof fn lemma_bcrypt_base64_injective(b: Seq<u8>, c: Seq<u8>)
    requires
        bcrypt_base64(b) == bcrypt_base64(c),
    ensures
        b == c,
    decreases b.len(),
{
    lemma_bcrypt_base64_shape(b);
    lemma_bcrypt_base64_shape(c);
    assert(b.len() == c.len());
    let e = bcrypt_base64(b);
    if b.len() == 0 {
        assert(b =~= c);
    } else {
        let (x0, x1, x2) = (b[0] as int, b[1] as int, b[2] as int);
        let (y0, y1, y2) = (c[0] as int, c[1] as int, c[2] as int);
        if b.len() == 1 {
            lemma_bcrypt_char_injective(x0 / 4, y0 / 4);
            lemma_bcrypt_char_injective((x0 % 4) * 16, (y0 % 4) * 16);
            lemma_group_bytes(x0, 0, 0, y0, 0, 0);
            assert(b =~= c);
        } else if b.len() == 2 {
            lemma_bcrypt_char_injective(x0 / 4, y0 / 4);
            lemma_bcrypt_char_injective((x0 % 4) * 16 + x1 / 16, (y0 % 4) * 16 + y1 / 16);
            lemma_bcrypt_char_injective((x1 % 16) * 4, (y1 % 16) * 4);
            lemma_group_bytes(x0, x1, 0, y0, y1, 0);
            assert(b =~= c);
        } else {
            assert(e[0] == bcrypt_base64(c)[0]);
            assert(e[1] == bcrypt_base64(c)[1]);
            assert(e[2] == bcrypt_base64(c)[2]);
            assert(e[3] == bcrypt_base64(c)[3]);
            lemma_bcrypt_char_injective(x0 / 4, y0 / 4);
            lemma_bcrypt_char_injective((x0 % 4) * 16 + x1 / 16, (y0 % 4) * 16 + y1 / 16);
            lemma_bcrypt_char_injective((x1 % 16) * 4 + x2 / 64, (y1 % 16) * 4 + y2 / 64);
            lemma_bcrypt_char_injective(x2 % 64, y2 % 64);
            lemma_group_bytes(x0, x1, x2, y0, y1, y2);
            assert(bcrypt_base64(b.skip(3)) =~= e.skip(4));
            assert(bcrypt_base64(c.skip(3)) =~= e.skip(4));
            lemma_bcrypt_base64_injective(b.skip(3), c.skip(3));
            assert(b =~= c) by {
                assert forall|i: int| 0 <= i < b.len() implies b[i] == c[i] by {
                    if i >= 3 {
                        assert(b[i] == b.skip(3)[i - 3]);
                        assert(c[i] == c.skip(3)[i - 3]);
                    }
                }
            }
        }
    }
}

/// Inputs with different SHA-256 digests get different stored digests: the
/// Base64 step loses nothing.
pub proof fn law_hash_text_keeps_digests_apart(x: Seq<u8>, y: Seq<u8>)
    requires
        sha256(x) != sha256(y),
    ensures
        hash_text(x) != hash_text(y),
{
    if hash_text(x) == hash_text(y) {
        lemma_bcrypt_base64_injective(sha256(x), sha256(y));
    }
}

/// The password digest of `data`: SHA-256, then bcrypt Base64. The result is
/// always 43 characters of the bcrypt alphabet.
pub fn do_hash(data: &[u8]) -> (r: String)
    ensures
        r@ == hash_text(data@),
        r@.len() == 43,
        forall|i: int| 0 <= i < r@.len() ==> is_bcrypt_char(#[trigger] r@[i]),
{
    let digest = sha256_digest(data);
    let r = encode_bcrypt_base64(digest.as_slice());
    proof {
        lemma_bcrypt_base64_shape(digest@);
    }
    r
}

} // verus!
