//! Digests and secrets. The store never holds a usable client token, only its
//! SHA-256 digest; a stored key is named to the outside by its fingerprint.
use vstd::prelude::*;
use vstd::utf8;

use crate::text::{chars_of, join, string_of};

verus! {

/// How many random bytes a client secret is made of.
pub const SECRET_BYTES: usize = 16;

/// How many hex digits name a key.
pub const FINGERPRINT_LEN: usize = 8;

// ---------------------------------------------------------------------------
// Hex
// ---------------------------------------------------------------------------
/// The lower-case hex digit for a number below sixteen.
pub open spec fn hex_digit(n: int) -> char {
    if n < 10 {
        ('0' as int + n) as char
    } else {
        ('a' as int + n - 10) as char
    }
}

/// Bytes in lower-case hex, two digits each.
pub open spec fn hex_of(bytes: Seq<u8>) -> Seq<char> {
    Seq::new(
        2 * bytes.len(),
        |i: int|
            if i % 2 == 0 {
                hex_digit(bytes[i / 2] as int / 16)
            } else {
                hex_digit(bytes[i / 2] as int % 16)
            },
    )
}

fn digit(n: u8) -> (r: char)
    requires
        n < 16,
    ensures
        r == hex_digit(n as int),
{
    if n < 10 {
        (48 + n) as char
    } else {
        (87 + n) as char
    }
}

/// Writes bytes in lower-case hex.
pub fn hex(bytes: &[u8]) -> (r: String)
    ensures
        r@ == hex_of(bytes@),
{
    let mut s = String::new();
    let mut i: usize = 0;
    assert(s@ =~= hex_of(bytes@.take(0)));
    while i < bytes.len()
        invariant
            i <= bytes@.len(),
            s@ == hex_of(bytes@.take(i as int)),
        decreases bytes.len() - i,
    {
        let b: u8 = bytes[i];
        s.push(digit(b / 16));
        s.push(digit(b % 16));
        let ghost before = bytes@.take(i as int);
        let ghost now = bytes@.take(i + 1);
        assert(s@ =~= hex_of(now)) by {
            assert forall|k: int| 0 <= k < 2 * i implies hex_of(now)[k] == hex_of(before)[k] by {
                assert(now[k / 2] == before[k / 2]);
            }
            assert(now[i as int] == b);
        }
        i += 1;
    }
    assert(bytes@.take(i as int) =~= bytes@);
    s
}

// ---------------------------------------------------------------------------
// Digests
// ---------------------------------------------------------------------------
/// The SHA-256 digest of bytes.
pub uninterp spec fn sha256_of(bytes: Seq<u8>) -> Seq<u8>;

/// Calls `sha2::Sha256::digest`, the SHA-256 digest, which is thirty-two bytes
/// long and depends on the bytes alone.
#[verifier::external_body]
fn sha256(bytes: &[u8]) -> (r: Vec<u8>)
    ensures
        r@ == sha256_of(bytes@),
        r@.len() == 32,
{
    <sha2::Sha256 as sha2::Digest>::digest(bytes).to_vec()
}

/// The SHA-256 digest of a text, in hex.
pub open spec fn digest_of(s: Seq<char>) -> Seq<char> {
    hex_of(sha256_of(utf8::encode_utf8(s)))
}

/// The SHA-256 digest of a text, in hex.
pub fn sha256_hex(s: &str) -> (r: String)
    ensures
        r@ == digest_of(s@),
        r@.len() == 64,
{
    let d = sha256(s.as_bytes());
    hex(d.as_slice())
}

/// The name of a key: the first digits of its digest.
pub open spec fn fingerprint_of(key: Seq<char>) -> Seq<char> {
    digest_of(key).take(FINGERPRINT_LEN as int)
}

/// The stable public name of a stored key; the key itself is never sent back.
pub fn fingerprint(key: &str) -> (r: String)
    ensures
        r@ == fingerprint_of(key@),
        r@.len() == FINGERPRINT_LEN,
{
    let d = sha256_hex(key);
    let chars = chars_of(d.as_str());
    string_of(&chars, 0, FINGERPRINT_LEN)
}

/// The last four characters of a text, or all of a shorter one.
pub open spec fn tail4(s: Seq<char>) -> Seq<char> {
    if s.len() <= 4 {
        s
    } else {
        s.skip(s.len() - 4)
    }
}

/// The last four characters of a text.
pub fn last4(s: &str) -> (r: String)
    ensures
        r@ == tail4(s@),
{
    let chars = chars_of(s);
    let n: usize = chars.len();
    let from: usize = if n <= 4 {
        0
    } else {
        n - 4
    };
    assert(chars@.subrange(from as int, n as int) =~= tail4(s@));
    string_of(&chars, from, n)
}

/// Whether two texts are equal. Every byte is looked at, so that how long it
/// takes tells nothing of where they differ.
pub fn ct_eq(a: &str, b: &str) -> (r: bool)
    ensures
        r == (a@ == b@),
{
    let x = a.as_bytes();
    let y = b.as_bytes();
    proof {
        utf8::encode_utf8_decode_utf8(a@);
        utf8::encode_utf8_decode_utf8(b@);
    }
    if x.len() != y.len() {
        return false;
    }
    let mut diff: u8 = 0;
    let mut i: usize = 0;
    while i < x.len()
        invariant
            i <= x.len(),
            x.len() == y.len(),
            diff == 0 <==> forall|k: int| 0 <= k < i ==> x@[k] == y@[k],
        decreases x.len() - i,
    {
        let p: u8 = x[i];
        let q: u8 = y[i];
        let next: u8 = diff | (p ^ q);
        assert(next == 0u8 <==> diff == 0u8 && p == q) by (bit_vector)
            requires
                next == diff | (p ^ q),
        ;
        diff = next;
        i += 1;
    }
    if diff == 0 {
        assert(x@ =~= y@);
        true
    } else {
        false
    }
}

// ---------------------------------------------------------------------------
// Secrets
// ---------------------------------------------------------------------------
/// Calls `getrandom::getrandom`, which fills a buffer with the randomness of the
/// operating system, or fails where there is none. Which bytes come is left to
/// chance.
#[verifier::external_body]
fn os_random() -> (r: Option<[u8; 16]>) {
    let mut bytes = [0u8; 16];
    match getrandom::getrandom(&mut bytes) {
        Ok(()) => Some(bytes),
        Err(_) => None,
    }
}

/// The client secret made of some bytes.
pub open spec fn secret_of(bytes: Seq<u8>) -> Seq<char> {
    "npk_"@ + hex_of(bytes)
}

/// The client secret made of some bytes.
pub fn client_secret(bytes: &[u8]) -> (r: String)
    ensures
        r@ == secret_of(bytes@),
{
    let h = hex(bytes);
    join("npk_", h.as_str())
}

/// A fresh client secret, or nothing when the operating system has no
/// randomness to give.
pub fn mint_client_secret() -> (r: Option<String>)
    ensures
        r matches Some(s) ==> exists|bytes: Seq<u8>|
            bytes.len() == SECRET_BYTES && s@ == #[trigger] secret_of(bytes),
{
    match os_random() {
        Some(bytes) => Some(client_secret(&bytes)),
        None => None,
    }
}

// ---------------------------------------------------------------------------
// Laws
// ---------------------------------------------------------------------------
/// The number that a lower-case hex digit stands for, by its code point; -1 for
/// any other character.
pub open spec fn nibble(c: char) -> int {
    if 48 <= c as int <= 57 {
        c as int - 48
    } else if 97 <= c as int <= 102 {
        c as int - 87
    } else {
        -1
    }
}

/// Hex loses nothing: it has two digits for each byte, in order, the high one
/// first, and they stand for the byte.
pub proof fn hex_stands_for_its_bytes(bytes: &[u8], r: String, i: int)
    requires
        call_ensures(hex, (bytes,), r),
        0 <= i < bytes@.len(),
    ensures
        r@.len() == 2 * bytes@.len(),
        0 <= nibble(r@[2 * i]) < 16,
        0 <= nibble(r@[2 * i + 1]) < 16,
        16 * nibble(r@[2 * i]) + nibble(r@[2 * i + 1]) == bytes@[i],
{
    let b = bytes@[i] as int;
    assert((2 * i) / 2 == i && (2 * i) % 2 == 0);
    assert((2 * i + 1) / 2 == i && (2 * i + 1) % 2 == 1);
    assert(r@[2 * i] == hex_digit(b / 16));
    assert(r@[2 * i + 1] == hex_digit(b % 16));
    assert(nibble(hex_digit(b / 16)) == b / 16);
    assert(nibble(hex_digit(b % 16)) == b % 16);
}

/// A key is digested whole, with SHA-256 and in hex; its fingerprint is the first
/// eight digits of that.
pub proof fn a_fingerprint_is_of_the_whole_key(
    key: &str,
    digest: String,
    fp: String,
    sum: &[u8],
    hexed: String,
)
    requires
        call_ensures(sha256_hex, (key,), digest),
        call_ensures(fingerprint, (key,), fp),
        sum@ == sha256_of(utf8::encode_utf8(key@)),
        call_ensures(hex, (sum,), hexed),
    ensures
        digest@ == hexed@,
        digest@.len() == 64,
        fp@ == digest@.take(8),
{
}

/// The last four characters of a text are how it ends; a shorter text is taken
/// whole.
pub proof fn four_characters_are_shown(s: &str, r: String)
    requires
        call_ensures(last4, (s,), r),
    ensures
        s@.len() <= 4 ==> r@ == s@,
        s@.len() > 4 ==> r@.len() == 4 && s@ == s@.take(s@.len() - 4) + r@,
{
    if s@.len() > 4 {
        assert(s@ =~= s@.take(s@.len() - 4) + r@);
    }
}

/// Two texts are equal exactly when they hold the same characters.
pub proof fn equal_texts_are_equal(a: &str, b: &str, r: bool)
    requires
        call_ensures(ct_eq, (a, b), r),
    ensures
        r <==> a@.len() == b@.len() && forall|i: int| 0 <= i < a@.len() ==> a@[i] == #[trigger] b@[i],
{
    if a@.len() == b@.len() && (forall|i: int| 0 <= i < a@.len() ==> a@[i] == #[trigger] b@[i]) {
        assert(a@ =~= b@);
    }
}

/// A client secret shows all of the randomness that it is made of: its prefix, and
/// then the bytes in hex. A minted one is made of sixteen bytes.
pub proof fn a_secret_is_its_randomness(
    bytes: &[u8],
    r: String,
    hexed: String,
    minted: Option<String>,
)
    requires
        call_ensures(client_secret, (bytes,), r),
        call_ensures(hex, (bytes,), hexed),
        call_ensures(mint_client_secret, (), minted),
    ensures
        r@ == "npk_"@ + hexed@,
        minted matches Some(s) ==> s@.len() == 36 && s@.take(4) == "npk_"@,
{
    reveal_strlit("npk_");
    if let Some(s) = minted {
        let b = choose|b: Seq<u8>| b.len() == SECRET_BYTES && s@ == #[trigger] secret_of(b);
        assert(s@.take(4) =~= "npk_"@);
    }
}

} // verus!
