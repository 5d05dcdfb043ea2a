//! The crawl door's client key seed, derived from the shared secret with
//! BLAKE3: the secret hashed, and that hash used as the key for a keyed
//! hash of the door's domain string.
use vstd::prelude::*;
use vstd::string::StringSliceAdditionalSpecFns;

verus! {

/// Domain separation for the derived client key, distinct from every other
/// door's so the same secret never yields a key valid for another service.
pub const KEY_DOMAIN: &'static str = "late.sh/dcss/v1\u{0}dcss\u{0}";

/// The BLAKE3 hash of a byte string, 32 bytes long.
pub uninterp spec fn blake3_hash(data: Seq<u8>) -> Seq<u8>;

/// The BLAKE3 keyed hash of a byte string under a 32-byte key, 32 bytes
/// long.
pub uninterp spec fn blake3_keyed_hash(key: Seq<u8>, data: Seq<u8>) -> Seq<u8>;

/// `blake3::hash`: the BLAKE3 hash of the bytes, a function of them alone.
#[verifier::external_body]
fn hash(data: &[u8]) -> (h: [u8; 32])
    ensures
        h@ == blake3_hash(data@),
{
    *blake3::hash(data).as_bytes()
}

/// `blake3::keyed_hash`: the BLAKE3 keyed hash of the bytes under the key, a
/// function of the two alone. Its documentation gives it as the same as a
/// keyed `Hasher` fed the bytes once and finalized.
#[verifier::external_body]
fn keyed_hash(key: &[u8; 32], data: &[u8]) -> (h: [u8; 32])
    ensures
        h@ == blake3_keyed_hash(key@, data@),
{
    *blake3::keyed_hash(key, data).as_bytes()
}

/// The seed of the door's single Ed25519 client key: the secret's hash,
/// used as the key of a keyed hash of the domain string. Both ends of the
/// connection recompute it from the same secret.
pub fn client_key_seed(secret: &str) -> (seed: [u8; 32])
    ensures
        seed@ == blake3_keyed_hash(blake3_hash(secret.spec_bytes()), KEY_DOMAIN.spec_bytes()),
{
    let master = hash(secret.as_bytes());
    keyed_hash(&master, KEY_DOMAIN.as_bytes())
}

} // verus!
