//! Derivation of internal storage keys from caller keys.
use vstd::prelude::*;

verus! {

/// The MD5 digest of the UTF-8 encoding of a string.
pub uninterp spec fn md5_digest(s: Seq<char>) -> Seq<u8>;

/// Relies on `md5::compute`: the digest is 16 bytes and depends on the
/// bytes of `s` alone.
#[verifier::external_body]
fn md5_of(s: &str) -> (r: [u8; 16])
    ensures
        r@ == md5_digest(s@),
{
    md5::compute(s).0
}

/// Relies on `String::push`: appends one character.
pub assume_specification[ String::push ](s: &mut String, ch: char)
    ensures
        final(s)@ == old(s)@.push(ch),
;

/// Relies on `String::push_str`: appends a string slice.
pub assume_specification[ String::push_str ](s: &mut String, t: &str)
    ensures
        final(s)@ == old(s)@ + t@,
;

/// The lower-case hexadecimal digit of a nibble.
pub open spec fn hex_digit(n: u8) -> char
    recommends
        n < 16,
{
    if n < 10 {
        (48 + n) as char
    } else {
        (87 + n) as char
    }
}

/// Lower-case hexadecimal text of a byte string, two digits per byte,
/// high nibble first.
pub open spec fn hex_of(b: Seq<u8>) -> Seq<char> {
    Seq::new(
        2 * b.len(),
        |j: int|
            if j % 2 == 0 {
                hex_digit(b[j / 2] / 16)
            } else {
                hex_digit(b[j / 2] % 16)
            },
    )
}

fn nibble_digit(n: u8) -> (c: char)
    requires
        n < 16,
    ensures
        c == hex_digit(n),
{
    if n < 10 {
        (48 + n) as char
    } else {
        (87 + n) as char
    }
}

/// Appends the hexadecimal text of the first `count` bytes of `bytes` to `out`.
fn push_hex(out: &mut String, bytes: &[u8], count: usize)
    requires
        count <= bytes@.len(),
    ensures
        final(out)@ == old(out)@ + hex_of(bytes@.subrange(0, count as int)),
{
    let ghost start = out@;
    let mut i: usize = 0;
    while i < count
        invariant
            i <= count <= bytes@.len(),
            out@ == start + hex_of(bytes@.subrange(0, i as int)),
        decreases count - i,
    {
        let b = bytes[i];
        out.push(nibble_digit(b / 16));
        out.push(nibble_digit(b % 16));
        proof {
            assert(hex_of(bytes@.subrange(0, i + 1)) =~= hex_of(bytes@.subrange(0, i as int)).push(
                hex_digit(b / 16),
            ).push(hex_digit(b % 16)));
        }
        i = i + 1;
    }
}

/// The hex text of a prefix of a byte string is the matching prefix of its
/// hex text.
proof fn lemma_hex_prefix(b: Seq<u8>, n: int)
    requires
        0 <= n <= b.len(),
    ensures
        hex_of(b.subrange(0, n)) == hex_of(b).subrange(0, 2 * n),
{
    assert(hex_of(b.subrange(0, n)) =~= hex_of(b).subrange(0, 2 * n));
}

/// The collection prefix: the first six hex digits of the MD5 digest of the
/// collection name.
pub open spec fn prefix_of(coll_name: Seq<char>) -> Seq<char> {
    hex_of(md5_digest(coll_name)).subrange(0, 6)
}

/// The internal key of caller key `key` in a collection with prefix `prefix`.
pub open spec fn internal_key(prefix: Seq<char>, key: Seq<char>) -> Seq<char> {
    prefix + hex_of(md5_digest(key))
}

/// Computes the prefix of the collection named `coll_name`.
pub fn collection_prefix(coll_name: &str) -> (r: String)
    ensures
        r@ == prefix_of(coll_name@),
        r@.len() == 6,
{
    let digest = md5_of(coll_name);
    let mut r = String::new();
    push_hex(&mut r, &digest, 3);
    proof {
        lemma_hex_prefix(digest@, 3);
    }
    r
}

/// Derives the internal key of caller key `key` under collection prefix
/// `prefix`: the prefix followed by the hex MD5 digest of the key.
pub fn derive_key(prefix: &str, key: &str) -> (r: String)
    ensures
        r@ == internal_key(prefix@, key@),
        r@.len() == prefix@.len() + 32,
{
    let digest = md5_of(key);
    let mut r = prefix.to_owned();
    push_hex(&mut r, &digest, 16);
    assert(digest@.subrange(0, 16) =~= digest@);
    r
}

proof fn lemma_hex_digit_injective(x: u8, y: u8)
    requires
        x < 16,
        y < 16,
        hex_digit(x) == hex_digit(y),
    ensures
        x == y,
{
}

/// Hex text determines the bytes it was made from.
pub proof fn lemma_hex_injective(a: Seq<u8>, b: Seq<u8>)
    requires
        hex_of(a) == hex_of(b),
    ensures
        a == b,
{
    assert(hex_of(a).len() == 2 * a.len());
    assert forall|i: int| 0 <= i < a.len() implies a[i] == b[i] by {
        let j = 2 * i;
        assert(j / 2 == i && j % 2 == 0 && (j + 1) / 2 == i && (j + 1) % 2 == 1);
        assert(hex_of(a)[j] == hex_digit(a[i] / 16));
        assert(hex_of(b)[j] == hex_digit(b[i] / 16));
        assert(hex_of(a)[j + 1] == hex_digit(a[i] % 16));
        assert(hex_of(b)[j + 1] == hex_digit(b[i] % 16));
        lemma_hex_digit_injective(a[i] / 16, b[i] / 16);
        lemma_hex_digit_injective(a[i] % 16, b[i] % 16);
    }
    assert(a =~= b);
}

/// Key derivation is deterministic, and within one collection two caller
/// keys whose MD5 digests differ never share an internal key: a collision
/// of internal keys is a collision of MD5.
pub proof fn lemma_distinct_keys(prefix: Seq<char>, k1: Seq<char>, k2: Seq<char>)
    ensures
        k1 == k2 ==> internal_key(prefix, k1) == internal_key(prefix, k2),
        md5_digest(k1) != md5_digest(k2) ==> internal_key(prefix, k1) != internal_key(
            prefix,
            k2,
        ),
{
    if internal_key(prefix, k1) == internal_key(prefix, k2) {
        let n = prefix.len() as int;
        assert(internal_key(prefix, k1).subrange(n, internal_key(prefix, k1).len() as int)
            =~= hex_of(md5_digest(k1)));
        assert(internal_key(prefix, k2).subrange(n, internal_key(prefix, k2).len() as int)
            =~= hex_of(md5_digest(k2)));
        lemma_hex_injective(md5_digest(k1), md5_digest(k2));
    }
}

} // verus!
