//! Registry artifact acquisition: deriving the deterministic, content-keyed
//! cache file name for a registry-sourced plugin, and the per-pull plan
//! (cache file, file to extract from the artifact, whether to verify the
//! artifact's signature).

use vstd::prelude::*;
use vstd::string::StrSliceExecFns;
use vstd::string::StringExecFns;
use sha2::Digest;

verus! {

/// The 32-byte digest that the SHA-256 hash function assigns to `bytes`.
pub uninterp spec fn sha256_of(bytes: Seq<u8>) -> Seq<u8>;

/// The lowercase hexadecimal character for a value below 16.
pub open spec fn hex_digit(n: u8) -> char
    recommends
        n < 16,
{
    if n < 10 {
        (n + 48) as char
    } else {
        ((n - 10) + 97) as char
    }
}

/// Lowercase hexadecimal rendering of a byte sequence: two characters per
/// byte, high nibble first.
pub open spec fn hex_of(bytes: Seq<u8>) -> Seq<char> {
    Seq::new(
        bytes.len() * 2,
        |i: int|
            if i % 2 == 0 {
                hex_digit(bytes[i / 2] / 16)
            } else {
                hex_digit(bytes[i / 2] % 16)
            },
    )
}

/// Relies on sha2::Sha256: the digest depends on the input bytes alone and
/// is 32 bytes long.
#[verifier::external_body]
fn sha256_digest(input: &[u8]) -> (r: Vec<u8>)
    ensures
        r@ == sha256_of(input@),
        r@.len() == 32,
{
    sha2::Sha256::digest(input).to_vec()
}

/// Relies on hex::encode: lowercase hexadecimal, two digits per byte, high
/// nibble first.
#[verifier::external_body]
fn hex_encode(bytes: &[u8]) -> (r: String)
    ensures
        r@ == hex_of(bytes@),
{
    hex::encode(bytes)
}

/// The content hash of a registry reference, truncated to a short
/// human-inspectable length.
pub open spec fn short_hash_of(reference: Seq<char>) -> Seq<char> {
    hex_of(sha256_of(vstd::utf8::encode_utf8(reference))).take(7)
}

/// The cache file name for a registry-sourced plugin: its name, a dash, the
/// truncated content hash of its reference, and the module suffix. The name
/// is a pure function of the plugin name and the reference, so repeated
/// pulls of the same reference land on the same cache entry.
pub open spec fn cache_file_name_spec(name: Seq<char>, reference: Seq<char>) -> Seq<char> {
    name + "-"@ + short_hash_of(reference) + ".wasm"@
}

/// Computes the cache file name for a registry-sourced plugin.
pub fn cache_file_name(name: &str, reference: &str) -> (r: String)
    ensures
        r@ == cache_file_name_spec(name@, reference@),
{
    let digest = sha256_digest(reference.as_bytes());
    let full = hex_encode(digest.as_slice());
    assert(full@.len() == 64);
    let short = full.as_str().substring_char(0, 7);
    proof {
        assert(short@ =~= short_hash_of(reference@));
    }
    let mut out = String::from_str(name);
    out.append("-");
    out.append(short);
    out.append(".wasm");
    out
}

/// Cache naming is deterministic: the same plugin name and registry
/// reference always yield the same cache file name, so a repeated pull
/// reuses the cached artifact rather than inventing a new one.
pub proof fn lemma_cache_file_name_deterministic(
    name: Seq<char>,
    reference: Seq<char>,
    a: Seq<char>,
    b: Seq<char>,
)
    requires
        a == cache_file_name_spec(name, reference),
        b == cache_file_name_spec(name, reference),
    ensures
        a == b,
{
}

/// Everything a single registry pull needs: where the artifact is cached,
/// which file to extract from the pulled artifact, and whether the
/// artifact's signature must be verified before any bytes are trusted.
#[derive(Debug)]
pub struct AcquisitionPlan {
    pub cache_file: String,
    pub target_path: String,
    pub verify_signature: bool,
}

/// Builds the acquisition plan for one registry-sourced plugin. Signature
/// verification is on unless the configuration explicitly disabled it.
pub fn registry_acquisition_plan(name: &str, reference: &str, insecure_skip_signature: bool) -> (r:
    AcquisitionPlan)
    ensures
        r.cache_file@ == cache_file_name_spec(name@, reference@),
        r.target_path@ == "/plugin.wasm"@,
        r.verify_signature == !insecure_skip_signature,
{
    AcquisitionPlan {
        cache_file: cache_file_name(name, reference),
        target_path: String::from_str("/plugin.wasm"),
        verify_signature: !insecure_skip_signature,
    }
}

} // verus!
