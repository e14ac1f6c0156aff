//! Digests as lower-case hexadecimal text, by way of the `data_encoding`
//! crate.

use vstd::prelude::*;
use vstd::utf8::is_ascii_chars;

verus! {

/// The upper-case hexadecimal digit for `n`, which is below 16.
pub open spec fn upper_digit(n: int) -> char {
    if n < 10 {
        ('0' as int + n) as char
    } else {
        ('A' as int + n - 10) as char
    }
}

/// The lower-case hexadecimal digit for `n`, which is below 16.
pub open spec fn lower_digit(n: int) -> char {
    if n < 10 {
        ('0' as int + n) as char
    } else {
        ('a' as int + n - 10) as char
    }
}

/// The half of the byte `bytes[i / 2]` that the `i`-th hexadecimal digit of
/// `bytes` stands for: the upper half first.
pub open spec fn nibble(bytes: Seq<u8>, i: int) -> int {
    if i % 2 == 0 {
        bytes[i / 2] as int / 16
    } else {
        bytes[i / 2] as int % 16
    }
}

/// `bytes` in upper-case hexadecimal digits, two for each byte.
pub open spec fn hex_upper(bytes: Seq<u8>) -> Seq<char> {
    Seq::new(2 * bytes.len(), |i: int| upper_digit(nibble(bytes, i)))
}

/// `bytes` in lower-case hexadecimal digits, two for each byte.
pub open spec fn hex_lower(bytes: Seq<u8>) -> Seq<char> {
    Seq::new(2 * bytes.len(), |i: int| lower_digit(nibble(bytes, i)))
}

/// The lower-case letter for an upper-case ASCII letter; any other
/// character as it is.
pub open spec fn ascii_lower(c: char) -> char {
    if 'A' <= c <= 'Z' {
        (c as int + 32) as char
    } else {
        c
    }
}

/// `s` with each upper-case ASCII letter replaced by its lower-case letter.
pub open spec fn ascii_lowered(s: Seq<char>) -> Seq<char> {
    Seq::new(s.len(), |i: int| ascii_lower(s[i]))
}

/// `data_encoding::HEXUPPER.encode`. Trusted: the result is `bytes` in the
/// digits `0123456789ABCDEF`, two for each byte, the upper half of a byte
/// first. The encoder panics on an input of more than `usize::MAX / 512`
/// bytes.
#[verifier::external_body]
fn encode_hex_upper(bytes: &[u8]) -> (text: String)
    requires
        bytes@.len() <= usize::MAX / 512,
    ensures
        text@ == hex_upper(bytes@),
{
    data_encoding::HEXUPPER.encode(bytes)
}

/// `str::to_lowercase`. Trusted: of a text in ASCII, the result is the text
/// with each upper-case letter replaced by its lower-case letter. Nothing is
/// claimed of other texts.
#[verifier::external_body]
fn to_lowercase(text: &str) -> (lower: String)
    ensures
        is_ascii_chars(text@) ==> lower@ == ascii_lowered(text@),
{
    text.to_lowercase()
}

/// Lowering the upper-case hexadecimal digits of `bytes` gives their
/// lower-case hexadecimal digits.
pub proof fn lemma_lowered_hex(bytes: Seq<u8>)
    ensures
        is_ascii_chars(hex_upper(bytes)),
        ascii_lowered(hex_upper(bytes)) == hex_lower(bytes),
{
    let upper = hex_upper(bytes);
    assert forall|i: int| 0 <= i < upper.len() implies '\0' <= #[trigger] upper[i] <= '\u{7f}'
        && ascii_lower(upper[i]) == lower_digit(nibble(bytes, i)) by {
        let n = nibble(bytes, i);
        assert(0 <= i / 2 < bytes.len());
        assert(0 <= n < 16);
        assert(upper[i] == upper_digit(n));
    }
    assert(ascii_lowered(upper) =~= hex_lower(bytes));
}

/// `digest` in lower-case hexadecimal digits. The encoder panics on more
/// than `usize::MAX / 512` bytes, so these are left out.
pub fn digest_hex(digest: &[u8]) -> (text: String)
    requires
        digest@.len() <= usize::MAX / 512,
    ensures
        text@ == hex_lower(digest@),
{
    let upper = encode_hex_upper(digest);
    proof {
        lemma_lowered_hex(digest@);
    }
    to_lowercase(upper.as_str())
}

} // verus!
