//! Random secrets: bytes from the operating system's generator, encoded as
//! lowercase hexadecimal.
use rand::RngCore;
use vstd::prelude::*;

verus! {

broadcast use vstd::seq::group_seq_axioms;

/// The lowercase hexadecimal digit for `n` (`0 <= n < 16`).
pub open spec fn hex_digit(n: int) -> char {
    if n < 10 {
        (n + 48) as char
    } else {
        (n + 87) as char
    }
}

/// `c` is one of `0-9a-f`.
pub open spec fn is_lower_hex(c: char) -> bool {
    ('0' <= c && c <= '9') || ('a' <= c && c <= 'f')
}

/// Each byte as two lowercase hexadecimal digits, high nibble first.
pub open spec fn hex_lower(bytes: Seq<u8>) -> Seq<char>
    decreases bytes.len(),
{
    if bytes.len() == 0 {
        seq![]
    } else {
        seq![hex_digit((bytes[0] / 16) as int), hex_digit((bytes[0] % 16) as int)] + hex_lower(bytes.drop_first())
    }
}

/// `s` is the lowercase hexadecimal encoding of `n` bytes.
pub open spec fn is_hex_secret(s: Seq<char>, n: nat) -> bool {
    exists|b: Seq<u8>| b.len() == n && s == #[trigger] hex_lower(b)
}

/// The encoding of `n` bytes is `2 * n` lowercase hexadecimal digits.
pub proof fn lemma_hex_lower_shape(bytes: Seq<u8>)
    ensures
        hex_lower(bytes).len() == 2 * bytes.len(),
        forall|i: int| 0 <= i < hex_lower(bytes).len() ==> is_lower_hex(#[trigger] hex_lower(bytes)[i]),
    decreases bytes.len(),
{
    if bytes.len() > 0 {
        let rest = bytes.drop_first();
        lemma_hex_lower_shape(rest);
        let h = hex_lower(bytes);
        assert forall|i: int| 0 <= i < h.len() implies is_lower_hex(#[trigger] h[i]) by {
            if i >= 2 {
                assert(h[i] == hex_lower(rest)[i - 2]);
            } else {
                let d = if i == 0 { bytes[0] / 16 } else { bytes[0] % 16 };
                assert(0 <= d < 16);
            }
        }
    }
}

/// `hex::encode` (hex 0.4): each byte of `bytes` as two lowercase
/// hexadecimal digits, high nibble first, in order. The claim is the one the
/// crate documents and its `HEX_CHARS_LOWER` table implements.
#[verifier::external_body]
fn hex_encode(bytes: &Vec<u8>) -> (r: String)
    ensures
        r@ == hex_lower(bytes@),
{
    hex::encode(bytes)
}

/// `RngCore::try_fill_bytes` on `rand::rngs::OsRng` (rand 0.8, rand_core
/// 0.6): overwrites the bytes of `buf` with random data from the operating
/// system and reports whether the system supplied it (`false` when
/// `getrandom` fails). Only the length of `buf` is stated, as the content is
/// chance; whether the system succeeds depends on the machine, so nothing is
/// stated of the flag.
#[verifier::external_body]
fn try_fill_random(buf: &mut Vec<u8>) -> (ok: bool)
    ensures
        final(buf)@.len() == old(buf)@.len(),
{
    rand::rngs::OsRng.try_fill_bytes(buf).is_ok()
}

/// `n` random bytes as a lowercase hexadecimal string of length `2 * n`, or
/// `None` when the operating system's generator fails.
pub fn random_hex(n: usize) -> (r: Option<String>)
    ensures
        r matches Some(s) ==> is_hex_secret(s@, n as nat),
        r matches Some(s) ==> s@.len() == 2 * n,
        r matches Some(s) ==> forall|i: int| 0 <= i < s@.len() ==> is_lower_hex(#[trigger] s@[i]),
{
    let mut buf: Vec<u8> = Vec::new();
    let mut i: usize = 0;
    while i < n
        invariant
            i <= n,
            buf@.len() == i,
        decreases n - i,
    {
        buf.push(0u8);
        i = i + 1;
    }
    if !try_fill_random(&mut buf) {
        return None;
    }
    let r = hex_encode(&buf);
    proof {
        lemma_hex_lower_shape(buf@);
    }
    Some(r)
}

} // verus!
