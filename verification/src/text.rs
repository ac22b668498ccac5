//! Byte-level views of source and diagnostic text.
//!
//! Shader source is handed to the driver as a C string, so it must not hold
//! an embedded null byte; driver info logs come back as raw bytes that may
//! or may not decode as text. Both checks live here.

use vstd::prelude::*;
use vstd::string::StringSliceAdditionalSpecFns;
use vstd::utf8::{decode_utf8, encode_utf8, valid_utf8};

verus! {

/// Whether the byte sequence holds an embedded null byte.
pub open spec fn has_nul_byte(bytes: Seq<u8>) -> bool {
    exists|i: int| 0 <= i < bytes.len() && bytes[i] == 0
}

/// Whether the UTF-8 encoding of `s` holds an embedded null byte.
pub open spec fn str_has_nul(s: &str) -> bool {
    has_nul_byte(s.spec_bytes())
}

/// Scans the UTF-8 bytes of `s` for an embedded null byte.
pub fn contains_nul_byte(s: &str) -> (r: bool)
    ensures
        r == str_has_nul(s),
{
    let bytes = s.as_bytes();
    let n = bytes.len();
    let mut i: usize = 0;
    while i < n
        invariant
            n == bytes@.len(),
            bytes@ == s.spec_bytes(),
            i <= n,
            forall|j: int| 0 <= j < i ==> bytes@[j] != 0,
        decreases n - i,
    {
        if bytes[i] == 0 {
            return true;
        }
        i = i + 1;
    }
    false
}

/// Relies on `String::from_utf8` (std): it succeeds exactly when the bytes
/// are valid UTF-8, and then returns the text those bytes encode.
#[verifier::external_body]
pub(crate) fn utf8_to_string(bytes: Vec<u8>) -> (r: Option<String>)
    ensures
        r is Some <==> valid_utf8(bytes@),
        r matches Some(s) ==> s@ == decode_utf8(bytes@),
{
    match String::from_utf8(bytes) {
        Ok(s) => Some(s),
        Err(_) => None,
    }
}

/// Decoding a non-empty valid UTF-8 byte sequence yields at least one
/// character.
pub(crate) proof fn lemma_decode_nonempty(bytes: Seq<u8>)
    requires
        valid_utf8(bytes),
        bytes.len() > 0,
    ensures
        decode_utf8(bytes).len() > 0,
{
    assert(decode_utf8(bytes).len() > 0) by {
        reveal_with_fuel(decode_utf8, 2);
    }
}

/// Compares two string slices by their UTF-8 bytes.
pub(crate) fn str_eq(a: &str, b: &str) -> (r: bool)
    ensures
        r == (a@ == b@),
{
    proof {
        vstd::utf8::encode_utf8_decode_utf8(a@);
        vstd::utf8::encode_utf8_decode_utf8(b@);
    }
    let ab = a.as_bytes();
    let bb = b.as_bytes();
    let n = ab.len();
    if n != bb.len() {
        return false;
    }
    let mut i: usize = 0;
    while i < n
        invariant
            n == ab@.len(),
            n == bb@.len(),
            ab@ == a.spec_bytes(),
            bb@ == b.spec_bytes(),
            i <= n,
            forall|j: int| 0 <= j < i ==> ab@[j] == bb@[j],
            decode_utf8(encode_utf8(a@)) == a@,
            decode_utf8(encode_utf8(b@)) == b@,
        decreases n - i,
    {
        if ab[i] != bb[i] {
            return false;
        }
        i = i + 1;
    }
    proof {
        assert(a.spec_bytes() =~= b.spec_bytes());
    }
    true
}

} // verus!
