//! What a signature vouches for.

use vstd::prelude::*;
use vstd::string::*;
use vstd::utf8::*;

use crate::error::{Error, IoFault};
use crate::paths::NativePath;
use crate::signature::GeneratedKeypair;
use crate::{digest, signature};

verus! {

/// What is signed of a bundle: a digest of its exact bytes behind a text that no
/// other use shares.
pub open spec fn signed(bundle: Seq<u8>) -> Seq<u8> {
    digest::sha256_of(encode_utf8("change-capsule receipt signature v1\0"@) + bundle)@
}

/// Whether a key is one and accepts a signature of a bundle.
pub open spec fn is_vouched(bundle: Seq<u8>, s: Seq<u8>, key: Seq<u8>) -> bool {
    signature::is_public_key(key) && signature::accepts(key, signed(bundle), s)
}

/// A bundle is committed to, and signed, by its exact bytes; what is signed is
/// accepted with the key of the seed.
pub proof fn law_signatures_vouch_for_exact_bytes(
    bundle: &[u8],
    seed: [u8; 32],
    commitment: [u8; 32],
    s: [u8; 64],
    key: [u8; 32],
    checked: std::result::Result<(), Error>,
)
    requires
        call_ensures(signature::bundle_signature_commitment, (bundle,), commitment),
        call_ensures(signature::sign_bundle_bytes, (bundle, &seed), s),
        call_ensures(signature::derive_public_key, (&seed,), key),
        call_ensures(signature::verify_bundle_signature_bytes, (bundle, &s, &key), checked),
    ensures
        commitment@ == signed(bundle@),
        s@ == signature::signature_of(seed@, signed(bundle@)),
        key@ == signature::public_key_of(seed@),
        checked is Ok,
{
}

/// A signature is accepted exactly where the trusted key is one and accepts it
/// for the bundle's exact bytes.
pub proof fn law_signatures_are_checked_with_the_trusted_key(
    bundle: &[u8],
    s: [u8; 64],
    key: [u8; 32],
    r: std::result::Result<(), Error>,
)
    requires
        call_ensures(signature::verify_bundle_signature_bytes, (bundle, &s, &key), r),
    ensures
        r is Ok <==> is_vouched(bundle@, s@, key@),
        r matches Err(e) ==> e is Verification,
{
}

/// A signature file is accepted exactly where both files could be read, it holds
/// 64 bytes, and the trusted key accepts them. What was signed is accepted.
pub proof fn law_signature_files_hold_one_signature(
    bundle: std::result::Result<Vec<u8>, Error>,
    raw: std::result::Result<Vec<u8>, Error>,
    key: [u8; 32],
    r: std::result::Result<(), Error>,
    seed: [u8; 32],
    made: std::result::Result<[u8; 64], Error>,
)
    requires
        call_ensures(signature::verify_bundle_signature, (bundle, raw, &key), r),
        call_ensures(signature::sign_bundle, (bundle, &seed), made),
    ensures
        r is Ok <==> (bundle matches Ok(b) && (raw matches Ok(s) && s@.len() == 64 && is_vouched(
            b@,
            s@,
            key@,
        ))),
        made is Ok <==> bundle is Ok,
        made matches Ok(s) ==> s@ == signature::signature_of(seed@, signed(bundle->Ok_0@)),
        made is Ok && key@ == signature::public_key_of(seed@) && (raw matches Ok(s) && s@
            == made->Ok_0@) ==> r is Ok,
{
    if let Ok(s) = made {
        assert(s@.len() == 64);
    }
}

/// Raw bytes are a signature exactly where there are 64 of them.
pub proof fn law_signatures_are_taken_as_they_are(raw: Vec<u8>, r: Option<[u8; 64]>)
    requires
        call_ensures(signature::signature_from, (&raw,), r),
    ensures
        r is Some <==> raw@.len() == 64,
        r matches Some(s) ==> s@ == raw@,
{
}

/// A pair of keys belongs together, whatever seed was drawn.
pub proof fn law_pairs_of_keys_belong_together(
    random: std::result::Result<[u8; 32], String>,
    r: std::result::Result<GeneratedKeypair, Error>,
    pair: GeneratedKeypair,
    seed: &[u8; 32],
    key: [u8; 32],
)
    requires
        call_ensures(signature::keypair_from, (random,), r),
        r == Ok::<GeneratedKeypair, Error>(pair) ==> call_ensures(
            GeneratedKeypair::private_seed,
            (&pair,),
            seed,
        ) && call_ensures(GeneratedKeypair::public_key, (&pair,), key),
    ensures
        r is Ok <==> random is Ok,
        r == Ok::<GeneratedKeypair, Error>(pair) ==> seed@ == random->Ok_0@ && key@
            == signature::public_key_of(seed@),
{
}

/// A signature file that exists is never overwritten, and any other failure is
/// told as it is.
pub proof fn law_signature_files_are_never_overwritten(path: NativePath, e: Error, r: Error)
    requires
        call_ensures(signature::signature_write_error, (&path, e), r),
    ensures
        (e matches Error::Io { fault, .. } && fault is AlreadyExists) ==> (
        r matches Error::InvalidInput(t) && t@ == "refusing to overwrite signature file: "@
            + digest::lossy_text_of(path.bytes@)),
        (e matches Error::Io { fault, .. } && !(fault is AlreadyExists)) ==> (
        r matches Error::Io { path: p, fault, detail } && p.bytes@ == e->Io_path.bytes@ && fault
            == e->Io_fault && detail@ == e->Io_detail@),
{
}

} // verus!
