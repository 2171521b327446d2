//! SHA-256 digests.

use sha2::{Digest, Sha256};
use vstd::prelude::*;
use vstd::string::*;

use crate::hex::{
    all_lower_hex, bytes_of_hex, bytes_round_trip, hex_of, hex_round_trip, push_hex, read_hex32,
};
use crate::text::{after, chars_of, is_lower_hex, strip_prefix, without_prefix};
use crate::value::Abstract;

verus! {

/// The SHA-256 digest of some bytes.
pub uninterp spec fn sha256(bytes: Seq<u8>) -> Seq<u8>;

/// `Sha256::digest`. Of the result is claimed that it is the same for the same
/// bytes.
#[verifier::external_body]
pub(crate) fn sha256_of(bytes: &[u8]) -> (r: [u8; 32])
    ensures
        r@ == sha256(bytes@),
{
    Sha256::digest(bytes).into()
}

/// The text of a digest: `sha256:` and 64 lowercase hexadecimal digits.
pub open spec fn digest_text(bytes: Seq<u8>) -> Seq<char> {
    "sha256:"@ + hex_of(bytes)
}

/// What a text says of a digest: its bytes, or why it is none.
pub open spec fn digest_in(value: Seq<char>) -> Result<Seq<u8>, &'static str> {
    match without_prefix(value, "sha256:"@) {
        None => Err("digest requires sha256 prefix"),
        Some(digits) => if digits.len() == 64 && forall|j: int|
            0 <= j < 64 ==> is_lower_hex(#[trigger] digits[j]) {
            Ok(bytes_of_hex(digits))
        } else {
            Err("digest requires 64 lowercase hexadecimal characters")
        },
    }
}

/// The text of a digest is read back as the digest.
pub proof fn digest_round_trip(bytes: Seq<u8>)
    requires
        bytes.len() == 32,
    ensures
        digest_in(digest_text(bytes)) == Ok::<Seq<u8>, &'static str>(bytes),
{
    hex_round_trip(bytes);
    let text = digest_text(bytes);
    assert(text.subrange(0, "sha256:"@.len() as int) =~= "sha256:"@);
    assert(after(text, "sha256:"@.len() as int) =~= hex_of(bytes));
}

/// A text that is read as a digest is the text of that digest: no two texts
/// stand for the same digest.
pub proof fn digest_text_is_unique(value: Seq<char>)
    requires
        digest_in(value) is Ok,
    ensures
        digest_text(digest_in(value)->Ok_0) == value,
        digest_in(value)->Ok_0.len() == 32,
{
    let digits = after(value, "sha256:"@.len() as int);
    bytes_round_trip(digits);
    assert(value =~= "sha256:"@ + digits);
}

/// The text of a digest.
pub fn render_digest(bytes: &[u8; 32]) -> (r: String)
    ensures
        r@ == digest_text(bytes@),
{
    let mut out: String = "sha256:".to_owned();
    push_hex(&mut out, bytes);
    out
}

/// The bytes of a digest.
pub fn parse_digest(value: &str) -> (r: Result<[u8; 32], &'static str>)
    ensures
        match r {
            Ok(bytes) => digest_in(value@) == Ok::<Seq<u8>, &'static str>(bytes@),
            Err(error) => digest_in(value@) == Err::<Seq<u8>, &'static str>(error),
        },
{
    let digits: String = match strip_prefix(value, "sha256:") {
        Some(digits) => digits,
        None => {
            return Err("digest requires sha256 prefix");
        },
    };
    let chars: Vec<char> = chars_of(digits.as_str());
    if chars.len() != 64 || !all_lower_hex(&chars, 0) {
        return Err("digest requires 64 lowercase hexadecimal characters");
    }
    Ok(read_hex32(&chars))
}

/// Whether two digests have the same bytes.
pub fn same_digest(left: &[u8; 32], right: &[u8; 32]) -> (b: bool)
    ensures
        b == (left@ == right@),
{
    let mut i: usize = 0;
    while i < 32
        invariant
            i <= 32,
            forall|k: int| 0 <= k < i ==> left@[k] == right@[k],
        decreases 32 - i,
    {
        if left[i] != right[i] {
            return false;
        }
        i += 1;
    }
    assert(left@ =~= right@);
    true
}

} // verus!
