//! Validation of paste identifiers, credential hashing and token generation.

use std::time::SystemTime;
use std::time::UNIX_EPOCH;

use sha2::Digest;
use sha2::Sha256;
use vstd::prelude::*;
use vstd::string::StringSliceAdditionalSpecFns;

verus! {

/// A byte that may appear in a paste's public URL: ASCII letters (65..=90,
/// 97..=122), digits (48..=57), `-` (45) or `_` (95).
pub open spec fn url_byte(b: u8) -> bool {
    (65 <= b <= 90) || (97 <= b <= 122) || (48 <= b <= 57) || b == 45 || b == 95
}

/// Every byte of the sequence is acceptable in a URL.
pub open spec fn url_safe_bytes(bytes: Seq<u8>) -> bool {
    forall|i: int| 0 <= i < bytes.len() ==> url_byte(#[trigger] bytes[i])
}

/// The UTF-8 encoding of a string value; all length limits on pastes are
/// stated in these bytes, as `str::len` counts them.
pub open spec fn bytes_of(s: Seq<char>) -> Seq<u8> {
    vstd::utf8::encode_utf8(s)
}

/// A string is URL-safe when every byte of its UTF-8 encoding is a
/// [`url_byte`].
pub open spec fn url_safe(s: Seq<char>) -> bool {
    url_safe_bytes(bytes_of(s))
}

/// Decides whether `string` may serve as a paste's public URL: it must
/// contain nothing but ASCII letters, digits, `-` and `_`.
pub fn is_url_safe(string: &str) -> (r: bool)
    ensures
        r == url_safe(string@),
{
    let bytes = string.as_bytes();
    let n = bytes.len();
    let mut i: usize = 0;
    while i < n
        invariant
            n == bytes@.len(),
            i <= n,
            bytes@ == string.spec_bytes(),
            forall|j: int| 0 <= j < i ==> url_byte(#[trigger] bytes@[j]),
        decreases n - i,
    {
        let b = bytes[i];
        if !((65 <= b && b <= 90) || (97 <= b && b <= 122) || (48 <= b && b <= 57) || b == 45
            || b == 95) {
            return false;
        }
        i = i + 1;
    }
    true
}

/// A non-empty string occupies at least one byte.
pub proof fn lemma_bytes_of_nonempty(s: Seq<char>)
    requires
        s.len() > 0,
    ensures
        bytes_of(s).len() >= 1,
{
    assert(bytes_of(s) == vstd::utf8::encode_scalar(s[0] as u32) + bytes_of(s.drop_first()));
}

/// A lower-case hexadecimal digit: `0`..=`9` or `a`..=`f`.
pub open spec fn lower_hex_char(c: char) -> bool {
    ('0' <= c <= '9') || ('a' <= c <= 'f')
}

/// The shape of every credential digest and of every generated token:
/// exactly 64 lower-case hexadecimal digits.
pub open spec fn token(s: Seq<char>) -> bool {
    s.len() == 64 && forall|i: int| 0 <= i < s.len() ==> lower_hex_char(#[trigger] s[i])
}

/// A token consists of ASCII digits and letters only, so it is URL-safe and
/// occupies exactly one byte per character.
pub proof fn lemma_token_url_safe(s: Seq<char>)
    requires
        token(s),
    ensures
        url_safe(s),
        bytes_of(s).len() == 64,
{
    assert forall|i: int| 0 <= i < s.len() implies '\0' <= #[trigger] s[i] <= '\u{7f}' by {
        assert(lower_hex_char(s[i]));
    }
    assert(vstd::utf8::is_ascii_chars(s));
    vstd::utf8::is_ascii_chars_encode_utf8(s);
    assert forall|i: int| 0 <= i < bytes_of(s).len() implies url_byte(#[trigger] bytes_of(s)[i]) by {
        assert(lower_hex_char(s[i]));
        assert(bytes_of(s)[i] == s[i] as u8);
    }
}

/// The digest, as lower-case hexadecimal text, that the hash function yields
/// for the given characters. It depends on those characters alone.
pub uninterp spec fn hash_of(s: Seq<char>) -> Seq<char>;

/// Computes the SHA256 hash of the provided string, as lower-case hex text.
///
/// Relies on `sha2::Sha256` (with `format!("{:x}", ..)` over the digest): the
/// digest is a pure function of the input bytes, 32 bytes long, and the hex
/// formatter prints each byte as two lower-case hexadecimal digits.
#[verifier::external_body]
pub fn hash_string(input: String) -> (r: String)
    ensures
        r@ == hash_of(input@),
        token(r@),
{
    let mut hasher = Sha256::new();
    hasher.update(input.into_bytes());
    let hash = hasher.finalize();
    format!("{:x}", hash)
}

/// Retrieves the current time as a Unix timestamp.
///
/// Relies on `std::time::SystemTime::now` and `duration_since(UNIX_EPOCH)`:
/// the seconds since the epoch are non-negative. Panics only if the system
/// clock reads before 1970 or past year 292 billion.
#[verifier::external_body]
pub fn unix_timestamp() -> (r: i64)
    ensures
        0 <= r,
{
    let now = SystemTime::now();
    let since_epoch = now
        .duration_since(UNIX_EPOCH)
        .expect("Time travel is not allowed");
    since_epoch.as_secs().try_into().unwrap()
}

/// Generates a random i64 value.
///
/// Relies on `rand::random`: nothing is promised of the drawn value.
#[verifier::external_body]
pub fn pseudoid() -> i64 {
    rand::random::<i64>()
}

/// Draws a random 32-bit seed for token generation.
///
/// Relies on `rand::random`: nothing is promised of the drawn value.
#[verifier::external_body]
fn random_seed() -> u32 {
    rand::random::<u32>()
}

/// Appends one character to a string.
///
/// Relies on `String::push`, which appends the given character.
#[verifier::external_body]
fn push_char(s: &mut String, c: char)
    ensures
        final(s)@ == old(s)@.push(c),
{
    s.push(c);
}

/// The upper-case hexadecimal digit for a value below 16.
pub open spec fn nibble_char(n: u32) -> char {
    if n == 0 { '0' } else if n == 1 { '1' } else if n == 2 { '2' } else if n == 3 { '3' }
    else if n == 4 { '4' } else if n == 5 { '5' } else if n == 6 { '6' } else if n == 7 { '7' }
    else if n == 8 { '8' } else if n == 9 { '9' } else if n == 10 { 'A' } else if n == 11 { 'B' }
    else if n == 12 { 'C' } else if n == 13 { 'D' } else if n == 14 { 'E' } else { 'F' }
}

/// The eight upper-case hexadecimal digits of a 32-bit value, most
/// significant nibble first.
pub open spec fn hex8(x: u32) -> Seq<char> {
    Seq::new(8, |i: int| nibble_char((x >> (((7 - i) * 4) as u32)) & 0xf))
}

fn hex_digit(n: u32) -> (c: char)
    requires
        n < 16,
    ensures
        c == nibble_char(n),
{
    if n == 0 { '0' } else if n == 1 { '1' } else if n == 2 { '2' } else if n == 3 { '3' }
    else if n == 4 { '4' } else if n == 5 { '5' } else if n == 6 { '6' } else if n == 7 { '7' }
    else if n == 8 { '8' } else if n == 9 { '9' } else if n == 10 { 'A' } else if n == 11 { 'B' }
    else if n == 12 { 'C' } else if n == 13 { 'D' } else if n == 14 { 'E' } else { 'F' }
}

/// Writes a 32-bit value as eight upper-case hexadecimal digits, zero-padded
/// on the left.
fn format_hex8(x: u32) -> (r: String)
    ensures
        r@ == hex8(x),
{
    let mut s = String::new();
    proof {
        assert(s@ =~= hex8(x).take(0));
    }
    let mut i: usize = 0;
    while i < 8
        invariant
            i <= 8,
            s@ == hex8(x).take(i as int),
        decreases 8 - i,
    {
        let shift: u32 = (7 - i as u32) * 4;
        assert(((x >> shift) & 0xf) < 16) by (bit_vector);
        let c = hex_digit((x >> shift) & 0xf);
        push_char(&mut s, c);
        proof {
            assert(s@ =~= hex8(x).take(i + 1));
        }
        i = i + 1;
    }
    proof {
        assert(s@ =~= hex8(x));
    }
    s
}

/// Generates a fresh URL or password token: the digest of a random 32-bit
/// seed written as eight hexadecimal digits.
pub fn random_string() -> (r: String)
    ensures
        token(r@),
        exists|x: u32| r@ == hash_of(#[trigger] hex8(x)),
{
    let x = random_seed();
    let hex = format_hex8(x);
    let r = hash_string(hex);
    proof {
        assert(r@ == hash_of(hex8(x)));
    }
    r
}

} // verus!
