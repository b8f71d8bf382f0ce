//! Names of cached audio downloads.
use vstd::prelude::*;

use crate::bindings::{sha256_digest, sha256_of};
use crate::store::{hex_encode, hex_spec};

verus! {

/// The cache name of a URL: the first eight bytes of the SHA-256 of its
/// UTF-8, in lowercase hex.
pub open spec fn url_hash_spec(url: Seq<char>) -> Seq<char> {
    hex_spec(sha256_of(vstd::utf8::encode_utf8(url)).take(8))
}

/// The name under which the audio at `url` is cached (16 hex digits).
pub fn url_hash(url: &str) -> (r: String)
    ensures
        r@ == url_hash_spec(url@),
        r@.len() == 16,
{
    let bytes = url.as_bytes_vec();
    let digest = sha256_digest(bytes.as_slice());
    let mut head: Vec<u8> = Vec::new();
    let mut i: usize = 0;
    while i < 8
        invariant
            i <= 8,
            digest@.len() == 32,
            head@ == digest@.take(i as int),
        decreases 8 - i,
    {
        head.push(digest[i]);
        proof {
            assert(head@ =~= digest@.take(i + 1));
        }
        i += 1;
    }
    proof {
        crate::store::lemma_hex_len(head@);
    }
    hex_encode(head.as_slice())
}

} // verus!
