use sha2::Digest;
use vstd::prelude::*;
use vstd::string::StringSliceAdditionalSpecFns;

verus! {

/// The SHA-256 digest of a byte sequence, as the `sha2` crate computes it.
pub uninterp spec fn sha256_spec(data: Seq<u8>) -> Seq<u8>;

/// Calls `sha2::Sha256::digest` on `data`. Trusted: the contract claims only that
/// the 32 bytes returned are the SHA-256 digest of exactly `data`.
#[verifier::external_body]
fn sha256_digest(data: &[u8]) -> (r: [u8; 32])
    ensures
        r@ == sha256_spec(data@),
{
    sha2::Sha256::digest(data).into()
}

/// SHA-256 of arbitrary bytes (used for off-chain content hashes).
pub fn sha256_bytes(data: &[u8]) -> (r: [u8; 32])
    ensures
        r@ == sha256_spec(data@),
{
    sha256_digest(data)
}

/// The value of one hexadecimal digit (either case), if `c` is one.
pub open spec fn hex_digit_value(c: u8) -> Option<u8> {
    if 48 <= c <= 57 {
        Some((c - 48) as u8)
    } else if 97 <= c <= 102 {
        Some((c - 97 + 10) as u8)
    } else if 65 <= c <= 70 {
        Some((c - 65 + 10) as u8)
    } else {
        None
    }
}

/// `s` is an even-length string of hexadecimal digits.
pub open spec fn is_hex_text(s: Seq<u8>) -> bool {
    &&& s.len() % 2 == 0
    &&& forall|i: int| 0 <= i < s.len() ==> (#[trigger] hex_digit_value(s[i])) is Some
}

/// The bytes that the hexadecimal text `s` denotes, two digits per byte, high digit first.
pub open spec fn hex_bytes_of(s: Seq<u8>) -> Seq<u8> {
    Seq::new(
        (s.len() / 2) as nat,
        |i: int|
            (hex_digit_value(s[2 * i])->0 * 16 + hex_digit_value(s[2 * i + 1])->0) as u8,
    )
}

/// Declares `hex::FromHexError`, the error `hex::decode` returns, as an opaque type.
#[verifier::external_type_specification]
#[verifier::external_body]
pub struct ExFromHexError(hex::FromHexError);

/// Calls `hex::decode`. Trusted: as the crate's source shows, it fails on text of odd
/// length or holding a byte that is not a hexadecimal digit of either case, and
/// otherwise returns the bytes that each pair of digits denotes, high digit first.
#[verifier::external_body]
fn hex_decode(text: &[u8]) -> (r: Result<Vec<u8>, hex::FromHexError>)
    ensures
        r is Ok <==> is_hex_text(text@),
        r matches Ok(v) ==> v@ == hex_bytes_of(text@),
{
    hex::decode(text)
}

/// Why a hexadecimal digest could not be read.
#[derive(Clone, Copy, Debug, PartialEq, Eq)]
pub enum HashHexError {
    /// The text is not an even-length run of hexadecimal digits.
    InvalidHex,
    /// The text decodes to a number of bytes other than 32.
    WrongLength,
}

/// Reads a SHA-256 digest written as 64 hexadecimal digits.
pub fn parse_hash_hex(text: &str) -> (r: Result<[u8; 32], HashHexError>)
    ensures
        !is_hex_text(text.spec_bytes()) ==> r == Err::<[u8; 32], HashHexError>(
            HashHexError::InvalidHex,
        ),
        is_hex_text(text.spec_bytes()) && hex_bytes_of(text.spec_bytes()).len() != 32 ==> r
            == Err::<[u8; 32], HashHexError>(HashHexError::WrongLength),
        is_hex_text(text.spec_bytes()) && hex_bytes_of(text.spec_bytes()).len() == 32 ==> (r
            matches Ok(h) && h@ == hex_bytes_of(text.spec_bytes())),
{
    let decoded = match hex_decode(text.as_bytes()) {
        Ok(v) => v,
        Err(_) => {
            return Err(HashHexError::InvalidHex);
        },
    };
    if decoded.len() != 32 {
        return Err(HashHexError::WrongLength);
    }
    let mut out: [u8; 32] = [0u8; 32];
    let mut i: usize = 0;
    while i < 32
        invariant
            decoded@.len() == 32,
            i <= 32,
            forall|j: int| 0 <= j < i ==> out@[j] == decoded@[j],
        decreases 32 - i,
    {
        out[i] = decoded[i];
        i = i + 1;
    }
    assert(out@ =~= decoded@);
    Ok(out)
}

} // verus!
