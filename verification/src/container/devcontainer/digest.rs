//! Content hashes.
use sha2::Digest;
use vstd::prelude::*;

verus! {

/// The SHA-256 hash of some bytes, as `sha2` computes it.
pub uninterp spec fn sha256_of(data: Seq<u8>) -> Seq<u8>;

/// `sha2::Sha256::digest`: the hash of some bytes, thirty-two bytes long. Which
/// bytes they are is left to the name `sha256_of`.
#[verifier::external_body]
pub(crate) fn sha256(data: &[u8]) -> (res: Vec<u8>)
    ensures
        res@ == sha256_of(data@),
        res@.len() == 32,
{
    sha2::Sha256::digest(data).to_vec()
}

/// A digit of base sixteen, in lower case.
pub open spec fn hex_digit(n: int) -> char {
    if 0 <= n < 10 {
        (48 + n) as char
    } else {
        (87 + n) as char
    }
}

/// Two digits of base sixteen for each byte.
pub open spec fn hex_text(data: Seq<u8>) -> Seq<char> {
    Seq::new(
        2 * data.len(),
        |i: int|
            if i % 2 == 0 {
                hex_digit(data[i / 2] as int / 16)
            } else {
                hex_digit(data[i / 2] as int % 16)
            },
    )
}

/// `hex::encode`: two lower-case digits for each byte, the high one first.
#[verifier::external_body]
pub(crate) fn hex_encode(data: &[u8]) -> (res: String)
    ensures
        res@ == hex_text(data@),
{
    hex::encode(data)
}

/// Each byte is written as two digits of base sixteen, the high one first, so that the
/// bytes can be read back.
pub proof fn law_hex_digits_read_back(data: Seq<u8>, i: int)
    requires
        0 <= i < data.len(),
    ensures
        hex_text(data).len() == 2 * data.len(),
        ({
            let value = |c: char|
                if c <= '9' {
                    c as int - '0' as int
                } else {
                    c as int - 'a' as int + 10
                };
            value(hex_text(data)[2 * i]) * 16 + value(hex_text(data)[2 * i + 1]) == data[i]
        }),
{
    let n = data[i] as int;
    assert((2 * i) / 2 == i && (2 * i + 1) / 2 == i);
    assert(hex_text(data)[2 * i] == hex_digit(n / 16));
    assert(hex_text(data)[2 * i + 1] == hex_digit(n % 16));
    assert(0 <= n / 16 < 16 && 0 <= n % 16 < 16);
}

} // verus!
