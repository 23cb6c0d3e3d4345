//! The content fingerprint of a file: the SHA-256 digest of its first bytes,
//! written in lower-case hexadecimal.

use sha2::Digest;
use vstd::prelude::*;
use vstd::string::StringExecFns;

verus! {

/// How many bytes of a file enter its fingerprint at most.
pub const HASH_PREFIX_LIMIT: usize = 4096;

/// The SHA-256 digest of a byte string.
pub uninterp spec fn sha256_digest(data: Seq<u8>) -> Seq<u8>;

/// Calls `Digest::digest` of `sha2::Sha256`, which feeds `data` to a new
/// hasher and finishes it: the result is the SHA-256 digest of `data`, which
/// depends on the bytes of `data` alone.
#[verifier::external_body]
pub(crate) fn sha256(data: &[u8]) -> (digest: Vec<u8>)
    ensures
        digest@ == sha256_digest(data@),
{
    sha2::Sha256::digest(data).to_vec()
}

/// The hexadecimal digit of a value below sixteen.
pub open spec fn hex_digit(n: int) -> char {
    seq!['0', '1', '2', '3', '4', '5', '6', '7', '8', '9', 'a', 'b', 'c', 'd', 'e', 'f'][n]
}

/// The half of byte `data[i / 2]` that the `i`-th digit of the hexadecimal
/// form of `data` writes: the upper half first.
pub open spec fn nibble(data: Seq<u8>, i: int) -> int {
    if i % 2 == 0 {
        data[i / 2] as int / 16
    } else {
        data[i / 2] as int % 16
    }
}

/// `data` in lower-case hexadecimal, two digits for each byte.
pub open spec fn lower_hex(data: Seq<u8>) -> Seq<char> {
    Seq::new(2 * data.len(), |i: int| hex_digit(nibble(data, i)))
}

/// What a fingerprint covers: the first `limit` bytes of `data`, and never
/// more than `HASH_PREFIX_LIMIT`.
pub open spec fn hashed_prefix(data: Seq<u8>, limit: int) -> Seq<u8> {
    let bound = if limit < HASH_PREFIX_LIMIT { limit } else { HASH_PREFIX_LIMIT as int };
    if data.len() <= bound { data } else { data.take(bound) }
}

/// The fingerprint of a file that starts with `data`: none where nothing is
/// covered.
pub open spec fn simple_hash(data: Seq<u8>, limit: int) -> Option<Seq<char>> {
    if hashed_prefix(data, limit).len() == 0 {
        None
    } else {
        Some(lower_hex(sha256_digest(hashed_prefix(data, limit))))
    }
}

/// The digit of `n` as a string.
pub fn hex_digit_str(n: u8) -> (r: &'static str)
    requires
        n < 16,
    ensures
        r@ == seq![hex_digit(n as int)],
{
    proof {
        reveal_strlit("0");
        reveal_strlit("1");
        reveal_strlit("2");
        reveal_strlit("3");
        reveal_strlit("4");
        reveal_strlit("5");
        reveal_strlit("6");
        reveal_strlit("7");
        reveal_strlit("8");
        reveal_strlit("9");
        reveal_strlit("a");
        reveal_strlit("b");
        reveal_strlit("c");
        reveal_strlit("d");
        reveal_strlit("e");
        reveal_strlit("f");
    }
    let r = if n == 0 {
        "0"
    } else if n == 1 {
        "1"
    } else if n == 2 {
        "2"
    } else if n == 3 {
        "3"
    } else if n == 4 {
        "4"
    } else if n == 5 {
        "5"
    } else if n == 6 {
        "6"
    } else if n == 7 {
        "7"
    } else if n == 8 {
        "8"
    } else if n == 9 {
        "9"
    } else if n == 10 {
        "a"
    } else if n == 11 {
        "b"
    } else if n == 12 {
        "c"
    } else if n == 13 {
        "d"
    } else if n == 14 {
        "e"
    } else {
        "f"
    };
    assert(r@ =~= seq![hex_digit(n as int)]);
    r
}

/// `data` in lower-case hexadecimal.
pub fn to_lower_hex(data: &[u8]) -> (r: String)
    ensures
        r@ == lower_hex(data@),
{
    let mut r = String::new();
    let mut i: usize = 0;
    while i < data.len()
        invariant
            i <= data.len(),
            r@.len() == 2 * i,
            forall|k: int| 0 <= k < 2 * i ==> r@[k] == hex_digit(nibble(data@, k)),
        decreases data.len() - i,
    {
        let byte = data[i];
        let ghost before = r@;
        r.append(hex_digit_str(byte / 16));
        r.append(hex_digit_str(byte % 16));
        proof {
            assert(r@ =~= before.push(hex_digit(byte as int / 16)).push(
                hex_digit(byte as int % 16),
            ));
            assert(nibble(data@, 2 * i) == byte as int / 16);
            assert(nibble(data@, 2 * i + 1) == byte as int % 16);
        }
        i += 1;
    }
    assert(r@ =~= lower_hex(data@));
    r
}

/// The first `n` bytes of `data`.
pub fn prefix_of(data: &[u8], n: usize) -> (r: Vec<u8>)
    requires
        n <= data.len(),
    ensures
        r@ == data@.take(n as int),
{
    let mut r: Vec<u8> = Vec::new();
    let mut i: usize = 0;
    while i < n
        invariant
            i <= n <= data.len(),
            r@ == data@.take(i as int),
        decreases n - i,
    {
        r.push(data[i]);
        assert(r@ =~= data@.take(i + 1));
        i += 1;
    }
    r
}

/// The fingerprint of a file of which `data` was read: the digest of its
/// first `max_bytes` bytes, at most `HASH_PREFIX_LIMIT` of them, in
/// hexadecimal. Nothing read, or a limit of zero, gives no fingerprint.
pub fn calculate_simple_hash(data: &[u8], max_bytes: usize) -> (r: Option<String>)
    ensures
        r.deep_view() == simple_hash(data@, max_bytes as int),
{
    let bound = if max_bytes < HASH_PREFIX_LIMIT {
        max_bytes
    } else {
        HASH_PREFIX_LIMIT
    };
    let n = if data.len() <= bound {
        data.len()
    } else {
        bound
    };
    if n == 0 {
        return None;
    }
    let covered = prefix_of(data, n);
    assert(covered@ =~= hashed_prefix(data@, max_bytes as int));
    let digest = sha256(covered.as_slice());
    Some(to_lower_hex(digest.as_slice()))
}

} // verus!
