//! SHA-256 digests and their lowercase hexadecimal form.
use sha2::Digest;
use vstd::prelude::*;
use crate::text::string_of;

verus! {

/// The SHA-256 digest of a byte sequence, as the `sha2` crate computes it.
pub uninterp spec fn sha256_digest(data: Seq<u8>) -> Seq<u8>;

/// `sha2::Sha256::digest`: the 32-byte SHA-256 digest of `data`.
/// Claimed: the result is the digest of exactly these bytes and has 32 bytes
/// (the output size of `Sha256`).
#[verifier::external_body]
fn sha256(data: &[u8]) -> (r: Vec<u8>)
    ensures
        r@ == sha256_digest(data@),
        r@.len() == 32,
{
    sha2::Sha256::digest(data).to_vec()
}

/// A lowercase hexadecimal digit.
pub open spec fn hex_char(n: nat) -> char {
    if n < 10 {
        ((n + 48) as u32) as char
    } else {
        ((n + 87) as u32) as char
    }
}

/// Two lowercase hexadecimal digits per byte, most significant first
/// (what `{:02x}` writes for each byte).
pub open spec fn hex(bytes: Seq<u8>) -> Seq<char>
    decreases bytes.len(),
{
    if bytes.len() == 0 {
        Seq::empty()
    } else {
        hex(bytes.drop_last()) + seq![
            hex_char((bytes.last() / 16) as nat),
            hex_char((bytes.last() % 16) as nat),
        ]
    }
}

pub proof fn lemma_hex_len(bytes: Seq<u8>)
    ensures
        hex(bytes).len() == 2 * bytes.len(),
    decreases bytes.len(),
{
    if bytes.len() > 0 {
        lemma_hex_len(bytes.drop_last());
    }
}

fn hex_digit(n: u8) -> (r: char)
    requires
        n < 16,
    ensures
        r == hex_char(n as nat),
{
    if n < 10 {
        let c = (n + 48) as char;
        assert(c == ((n + 48) as u32) as char);
        c
    } else {
        let c = (n + 87) as char;
        assert(c == ((n + 87) as u32) as char);
        c
    }
}

/// Hexadecimal characters of `bytes`.
pub fn hex_chars(bytes: &[u8]) -> (r: Vec<char>)
    ensures
        r@ == hex(bytes@),
{
    let mut out: Vec<char> = Vec::new();
    let mut i: usize = 0;
    while i < bytes.len()
        invariant
            i <= bytes@.len(),
            out@ == hex(bytes@.take(i as int)),
        decreases bytes.len() - i,
    {
        let b = bytes[i];
        out.push(hex_digit(b / 16));
        out.push(hex_digit(b % 16));
        assert(bytes@.take(i + 1).drop_last() =~= bytes@.take(i as int));
        assert(out@ =~= hex(bytes@.take(i + 1)));
        i = i + 1;
    }
    assert(bytes@.take(bytes@.len() as int) =~= bytes@);
    out
}

/// Lowercase hexadecimal encoding of bytes.
pub fn encode(bytes: &[u8]) -> (r: String)
    ensures
        r@ == hex(bytes@),
{
    let cs = hex_chars(bytes);
    string_of(cs.as_slice())
}

/// The hexadecimal SHA-256 digest of the UTF-8 bytes of `text`.
pub open spec fn text_digest(text: Seq<char>) -> Seq<char> {
    hex(sha256_digest(vstd::utf8::encode_utf8(text)))
}

pub fn digest_chars(text: &str) -> (r: Vec<char>)
    ensures
        r@ == text_digest(text@),
        r@.len() == 64,
{
    let bytes = text.as_bytes();
    let d = sha256(bytes);
    proof {
        lemma_hex_len(d@);
    }
    hex_chars(d.as_slice())
}

} // verus!
