use vstd::prelude::*;

verus! {

/// The SHA-256 digest of `data` (FIPS 180-4), as `sha2::Sha256` computes it.
pub uninterp spec fn sha256_digest(data: Seq<u8>) -> Seq<u8>;

/// The lower-case hexadecimal digit of `d < 16`.
pub open spec fn lower_hex_char(d: u8) -> char {
    if d < 10 {
        ((d + 0x30) as u32) as char
    } else {
        ((d + 0x57) as u32) as char
    }
}

/// The lower-case hexadecimal text of `bytes`: two digits per byte, high
/// nibble first.
pub open spec fn lower_hex(bytes: Seq<u8>) -> Seq<char>
    decreases bytes.len(),
{
    if bytes.len() == 0 {
        Seq::empty()
    } else {
        lower_hex(bytes.drop_last()) + seq![
            lower_hex_char(bytes.last() / 16),
            lower_hex_char(bytes.last() % 16),
        ]
    }
}

/// `Sha256::digest` of the `sha2` crate: the 32-byte digest of `data`.
#[verifier::external_body]
fn sha256(data: &[u8]) -> (d: Vec<u8>)
    ensures
        d@ == sha256_digest(data@),
        d@.len() == 32,
{
    <sha2::Sha256 as sha2::Digest>::digest(data).to_vec()
}

/// `hex::encode` of the `hex` crate: `bytes` as lower-case hexadecimal text.
#[verifier::external_body]
fn hex_encode(bytes: &[u8]) -> (s: String)
    ensures
        s@ == lower_hex(bytes@),
{
    hex::encode(bytes)
}

/// The SHA-256 digest of `data` written as lower-case hexadecimal, as the
/// upload records store it.
pub fn sha256_hex(data: &[u8]) -> (s: String)
    ensures
        s@ == lower_hex(sha256_digest(data@)),
        s@.len() == 64,
{
    let d = sha256(data);
    proof {
        lemma_lower_hex_len(d@);
    }
    hex_encode(d.as_slice())
}

/// Hexadecimal text has two digits per byte.
pub proof fn lemma_lower_hex_len(bytes: Seq<u8>)
    ensures
        lower_hex(bytes).len() == 2 * bytes.len(),
    decreases bytes.len(),
{
    if bytes.len() > 0 {
        lemma_lower_hex_len(bytes.drop_last());
    }
}

/// All the bytes of `parts`, one part after another.
pub open spec fn joined_bytes(parts: Seq<Vec<u8>>) -> Seq<u8>
    decreases parts.len(),
{
    if parts.len() == 0 {
        Seq::empty()
    } else {
        joined_bytes(parts.drop_last()) + parts.last()@
    }
}

/// The SHA-256 digest, in lower-case hexadecimal, of the parts of a file
/// taken in order (the digest of a file uploaded in chunks).
pub fn sha256_hex_of_parts(parts: &Vec<Vec<u8>>) -> (s: String)
    ensures
        s@ == lower_hex(sha256_digest(joined_bytes(parts@))),
{
    let mut all: Vec<u8> = Vec::new();
    let mut i: usize = 0;
    while i < parts.len()
        invariant
            i <= parts@.len(),
            all@ == joined_bytes(parts@.take(i as int)),
        decreases parts.len() - i,
    {
        let mut part = parts[i].clone();
        all.append(&mut part);
        assert(parts@.take(i + 1).drop_last() =~= parts@.take(i as int));
        i = i + 1;
    }
    assert(parts@.take(parts@.len() as int) =~= parts@);
    sha256_hex(all.as_slice())
}

} // verus!
