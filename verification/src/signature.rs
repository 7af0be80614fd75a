//! Optional detached Ed25519 authenticity for exported receipts.
//!
//! Signatures cover a domain-separated SHA-256 commitment of the exact
//! `bundle.json` bytes. The bundle descriptors in turn bind `result.json` and
//! `result.patch`. Public keys are supplied out of band by the verifier.

use ed25519_dalek::{Signer, Verifier};
use vstd::prelude::*;
use vstd::string::*;
use vstd::utf8::*;
use zeroize::Zeroize;

use crate::error::{Error, ErrorView, IoFault};
use crate::paths::NativePath;
use crate::{bytes, digest, error, paths, text};

verus! {

/// Largest `bundle.json` in bytes.
pub const BUNDLE_CAP: u64 = 1048576;

/// Length of a raw signature in bytes.
pub const SIGNATURE_BYTES: u64 = 64;

/// The Ed25519 public key of a private seed.
pub uninterp spec fn public_key_of(seed: Seq<u8>) -> Seq<u8>;

/// Whether 32 bytes are an Ed25519 public key.
pub uninterp spec fn is_public_key(key: Seq<u8>) -> bool;

/// The Ed25519 signature of a message under a private seed.
pub uninterp spec fn signature_of(seed: Seq<u8>, message: Seq<u8>) -> Seq<u8>;

/// Whether a public key accepts a signature of a message.
pub uninterp spec fn accepts(key: Seq<u8>, message: Seq<u8>, signature: Seq<u8>) -> bool;

/// Whether a key is one, and accepts a signature of a message.
pub open spec fn verifies(key: Seq<u8>, message: Seq<u8>, signature: Seq<u8>) -> bool {
    is_public_key(key) && accepts(key, message, signature)
}

/// `ed25519_dalek::SigningKey::from_bytes` and its `verifying_key`: the public
/// key of a seed, a function of the seed alone.
#[verifier::external_body]
pub(crate) fn ed25519_public_key(seed: &[u8; 32]) -> (key: [u8; 32])
    ensures
        key@ == public_key_of(seed@),
{
    let held = zeroize::Zeroizing::new(*seed);
    ed25519_dalek::SigningKey::from_bytes(&held).verifying_key().to_bytes()
}

/// `ed25519_dalek::SigningKey::from_bytes` and its `sign`: the signature of
/// `message`, a function of the seed and the message alone, which the seed's
/// own public key accepts.
#[verifier::external_body]
pub(crate) fn ed25519_sign(seed: &[u8; 32], message: &[u8]) -> (signature: [u8; 64])
    ensures
        signature@ == signature_of(seed@, message@),
        verifies(public_key_of(seed@), message@, signature@),
{
    let held = zeroize::Zeroizing::new(*seed);
    ed25519_dalek::SigningKey::from_bytes(&held).sign(message).to_bytes()
}

/// `ed25519_dalek::VerifyingKey::from_bytes`: whether it takes `key`, which is
/// a function of its bytes alone.
#[verifier::external_body]
pub(crate) fn ed25519_key_valid(key: &[u8; 32]) -> (valid: bool)
    ensures
        valid == is_public_key(key@),
{
    ed25519_dalek::VerifyingKey::from_bytes(key).is_ok()
}

/// `ed25519_dalek::VerifyingKey::verify`: whether `key` accepts `signature` for
/// `message`, a function of the three alone. That it accepts no signature made
/// for another message or with another seed is not stated.
#[verifier::external_body]
pub(crate) fn ed25519_accepts(key: &[u8; 32], message: &[u8], signature: &[u8; 64]) -> (accepted:
    bool)
    requires
        is_public_key(key@),
    ensures
        accepted == accepts(key@, message@, signature@),
{
    let parsed = ed25519_dalek::Signature::from_bytes(signature);
    match ed25519_dalek::VerifyingKey::from_bytes(key) {
        Ok(verifying) => verifying.verify(message, &parsed).is_ok(),
        Err(_) => false,
    }
}

/// `getrandom::fill`: 32 bytes from the operating system's random source, or
/// its message where that fails. Nothing is promised of the bytes.
#[verifier::external_body]
pub(crate) fn random_seed() -> (r: std::result::Result<[u8; 32], String>) {
    let mut seed = [0_u8; 32];
    match getrandom::fill(&mut seed) {
        Ok(()) => Ok(seed),
        Err(error) => Err(error.to_string()),
    }
}

/// `zeroize::Zeroize::zeroize` on 32 bytes: every byte becomes zero.
#[verifier::external_body]
pub(crate) fn zeroize_bytes(secret: &mut [u8; 32])
    ensures
        forall|i: int| 0 <= i < 32 ==> #[trigger] final(secret)@[i] == 0,
{
    secret.zeroize();
}

/// A newly generated raw Ed25519 keypair.
///
/// Callers persist the 32-byte private seed only in appropriately protected
/// secret storage, and erase the pair when they are done with it.
pub struct GeneratedKeypair {
    private_seed: [u8; 32],
    public_key: [u8; 32],
}

impl GeneratedKeypair {
    /// The private seed.
    pub closed spec fn seed(self) -> Seq<u8> {
        self.private_seed@
    }

    /// The public key.
    pub closed spec fn key(self) -> Seq<u8> {
        self.public_key@
    }

    /// Borrow the raw 32-byte Ed25519 private seed.
    pub fn private_seed(&self) -> (r: &[u8; 32])
        ensures
            r@ == self.seed(),
    {
        &self.private_seed
    }

    /// Return the matching raw 32-byte Ed25519 public key.
    pub fn public_key(&self) -> (r: [u8; 32])
        ensures
            r@ == self.key(),
    {
        self.public_key
    }

    /// Overwrite both halves with zeros.
    pub fn erase(&mut self)
        ensures
            forall|i: int| 0 <= i < 32 ==> #[trigger] final(self).seed()[i] == 0,
            forall|i: int| 0 <= i < 32 ==> #[trigger] final(self).key()[i] == 0,
    {
        zeroize_bytes(&mut self.private_seed);
        zeroize_bytes(&mut self.public_key);
    }
}

/// The keypair of a seed that the random source gave, or its failure.
pub fn keypair_from(random: std::result::Result<[u8; 32], String>) -> (r: std::result::Result<
    GeneratedKeypair,
    Error,
>)
    ensures
        match random {
            Ok(seed) => r matches Ok(pair) && pair.seed() == seed@ && pair.key() == public_key_of(
                seed@,
            ),
            Err(m) => r matches Err(e) && e@ == ErrorView::InvalidInput(
                "OS random generation failed: "@ + m@,
            ),
        },
{
    match random {
        Ok(seed) => {
            let public_key = derive_public_key(&seed);
            Ok(GeneratedKeypair { private_seed: seed, public_key })
        },
        Err(m) => Err(
            Error::InvalidInput(text::cat2("OS random generation failed: ", m.as_str())),
        ),
    }
}

/// Generate a matching Ed25519 private seed and public key with the operating
/// system's random source.
pub fn generate_keypair() -> (r: std::result::Result<GeneratedKeypair, Error>)
    ensures
        match r {
            Ok(pair) => pair.key() == public_key_of(pair.seed()),
            Err(e) => exists|m: Seq<char>|
                e@ == ErrorView::InvalidInput(#[trigger] ("OS random generation failed: "@ + m)),
        },
{
    keypair_from(random_seed())
}

/// Derive the raw 32-byte Ed25519 public key for a raw 32-byte private seed.
pub fn derive_public_key(private_seed: &[u8; 32]) -> (r: [u8; 32])
    ensures
        r@ == public_key_of(private_seed@),
{
    ed25519_public_key(private_seed)
}

/// The bytes that a receipt's commitment covers.
pub open spec fn commitment_preimage(bundle_json: Seq<u8>) -> Seq<u8> {
    encode_utf8("change-capsule receipt signature v1\0"@) + bundle_json
}

/// The fixed-domain commitment signed for receipt authenticity.
pub open spec fn commitment_of(bundle_json: Seq<u8>) -> [u8; 32] {
    digest::sha256_of(commitment_preimage(bundle_json))
}

/// Different bundles are committed to by hashing different bytes: a signature
/// covers the exact bundle.
pub proof fn law_commitment_covers_exact_bytes(a: Seq<u8>, b: Seq<u8>)
    requires
        commitment_preimage(a) == commitment_preimage(b),
    ensures
        a == b,
{
    let domain = encode_utf8("change-capsule receipt signature v1\0"@);
    assert((domain + a).skip(domain.len() as int) =~= a);
    assert((domain + b).skip(domain.len() as int) =~= b);
}

/// Compute the fixed-domain commitment signed for receipt authenticity.
pub fn bundle_signature_commitment(bundle_json: &[u8]) -> (r: [u8; 32])
    ensures
        r == commitment_of(bundle_json@),
{
    let mut message = bytes::copy_bytes("change-capsule receipt signature v1\0".as_bytes());
    bytes::push_bytes(&mut message, bundle_json);
    digest::sha256(message.as_slice())
}

/// What checking a detached signature says.
pub open spec fn signature_check(bundle_json: Seq<u8>, signature: Seq<u8>, key: Seq<u8>) -> std::result::Result<
    (),
    ErrorView,
> {
    if !is_public_key(key) {
        Err(ErrorView::Verification("trusted Ed25519 public key is invalid"@))
    } else if !accepts(key, commitment_of(bundle_json)@, signature) {
        Err(ErrorView::Verification("bundle signature is invalid"@))
    } else {
        Ok(())
    }
}

/// Sign exact `bundle.json` bytes with an Ed25519 private seed.
///
/// The signature always checks against the seed's own public key.
pub fn sign_bundle_bytes(bundle_json: &[u8], private_seed: &[u8; 32]) -> (r: [u8; 64])
    ensures
        r@ == signature_of(private_seed@, commitment_of(bundle_json@)@),
        signature_check(bundle_json@, r@, public_key_of(private_seed@)) is Ok,
{
    let commitment = bundle_signature_commitment(bundle_json);
    ed25519_sign(private_seed, commitment.as_slice())
}

/// Verify a detached signature with an explicitly trusted Ed25519 public key.
pub fn verify_bundle_signature_bytes(
    bundle_json: &[u8],
    signature: &[u8; 64],
    trusted_public_key: &[u8; 32],
) -> (r: std::result::Result<(), Error>)
    ensures
        error::outcome(r) == signature_check(bundle_json@, signature@, trusted_public_key@),
{
    if !ed25519_key_valid(trusted_public_key) {
        return Err(Error::Verification("trusted Ed25519 public key is invalid".to_owned()));
    }
    let commitment = bundle_signature_commitment(bundle_json);
    if ed25519_accepts(trusted_public_key, commitment.as_slice(), signature) {
        Ok(())
    } else {
        Err(Error::Verification("bundle signature is invalid".to_owned()))
    }
}

/// Sign a receipt's `bundle.json` as it was read; the raw 64-byte signature is
/// to be written to a new file. A file of these bytes verifies with the seed's
/// own public key.
pub fn sign_bundle(bundle: std::result::Result<Vec<u8>, Error>, private_seed: &[u8; 32]) -> (r:
    std::result::Result<[u8; 64], Error>)
    ensures
        match bundle {
            Err(e) => r matches Err(found) && found@ == e@,
            Ok(b) => r matches Ok(s) && s@ == signature_of(
                private_seed@,
                commitment_of(b@)@,
            ) && signature_check(b@, s@, public_key_of(private_seed@)) is Ok && (forall|
                written: Vec<u8>,
            |
                written@ == s@ ==> #[trigger] signature_file_check(
                    bundle,
                    Ok(written),
                    public_key_of(private_seed@),
                ) is Ok),
        },
{
    match bundle {
        Err(e) => Err(e),
        Ok(b) => Ok(sign_bundle_bytes(b.as_slice(), private_seed)),
    }
}

/// The error for a public key that could not be put in place. It goes first, so
/// no private key exists yet.
pub fn public_key_error(public_key: &NativePath, e: &Error) -> (r: Error)
    ensures
        r@ == ErrorView::InvalidInput(
            "public key publication failed at "@ + paths::display_of(public_key@)
                + "; no private key was published: "@ + error::message_of(e@)
                + "; remove the public key before retrying if it exists"@,
        ),
{
    Error::InvalidInput(
        text::cat5(
            "public key publication failed at ",
            public_key.display().as_str(),
            "; no private key was published: ",
            e.message().as_str(),
            "; remove the public key before retrying if it exists",
        ),
    )
}

/// The error for a private key that could not be put in place once its public
/// key had been.
pub fn private_key_error(public_key: &NativePath, private_key: &NativePath, e: &Error) -> (r: Error)
    ensures
        r@ == ErrorView::InvalidInput(
            "public key was published at "@ + paths::display_of(public_key@)
                + "; private key publication failed at "@ + paths::display_of(private_key@) + ": "@
                + error::message_of(e@) + "; remove the public key before retrying if desired"@,
        ),
{
    let failure = text::cat6(
        "public key was published at ",
        public_key.display().as_str(),
        "; private key publication failed at ",
        private_key.display().as_str(),
        ": ",
        e.message().as_str(),
    );
    Error::InvalidInput(
        text::cat2(failure.as_str(), "; remove the public key before retrying if desired"),
    )
}

/// The error for a signature file that could not be put in place: an existing
/// file is never overwritten.
pub fn signature_write_error(path: &NativePath, e: Error) -> (r: Error)
    ensures
        r@ == match e@ {
            ErrorView::Io { fault: IoFault::AlreadyExists, .. } => ErrorView::InvalidInput(
                "refusing to overwrite signature file: "@ + paths::display_of(path@),
            ),
            other => other,
        },
{
    match e {
        Error::Io { path: at, fault, detail } => if fault == IoFault::AlreadyExists {
            Error::InvalidInput(
                text::cat2("refusing to overwrite signature file: ", path.display().as_str()),
            )
        } else {
            Error::Io { path: at, fault, detail }
        },
        other => other,
    }
}

/// The 64 bytes of a signature file, if it holds exactly that many.
pub fn signature_from(raw: &Vec<u8>) -> (r: Option<[u8; 64]>)
    ensures
        match r {
            Some(s) => s@ == raw@,
            None => raw@.len() != SIGNATURE_BYTES,
        },
        r is Some <==> raw@.len() == SIGNATURE_BYTES,
{
    if raw.len() != 64 {
        return None;
    }
    let mut s = [0_u8; 64];
    let mut i: usize = 0;
    while i < 64
        invariant
            i <= 64,
            raw@.len() == 64,
            forall|j: int| 0 <= j < i ==> #[trigger] s@[j] == raw@[j],
        decreases 64 - i,
    {
        s[i] = raw[i];
        i += 1;
    }
    proof {
        assert(s@ =~= raw@);
    }
    Some(s)
}

/// What checking a receipt's signature file says, given both files as read.
pub open spec fn signature_file_check(
    bundle: std::result::Result<Vec<u8>, Error>,
    signature: std::result::Result<Vec<u8>, Error>,
    key: Seq<u8>,
) -> std::result::Result<(), ErrorView> {
    match bundle {
        Err(e) => Err(e@),
        Ok(b) => match signature {
            Err(e) => Err(
                ErrorView::Verification("cannot read signature: "@ + error::message_of(e@)),
            ),
            Ok(raw) => if raw@.len() != SIGNATURE_BYTES {
                Err(
                    ErrorView::Verification("signature file must contain exactly 64 raw bytes"@),
                )
            } else {
                signature_check(b@, raw@, key)
            },
        },
    }
}

/// Verify a receipt's raw detached signature with a trusted public key.
pub fn verify_bundle_signature(
    bundle: std::result::Result<Vec<u8>, Error>,
    signature: std::result::Result<Vec<u8>, Error>,
    trusted_public_key: &[u8; 32],
) -> (r: std::result::Result<(), Error>)
    ensures
        error::outcome(r) == signature_file_check(bundle, signature, trusted_public_key@),
{
    let b = match bundle {
        Err(e) => {
            return Err(e);
        },
        Ok(b) => b,
    };
    let raw = match signature {
        Err(e) => {
            return Err(
                Error::Verification(text::cat2("cannot read signature: ", e.message().as_str())),
            );
        },
        Ok(raw) => raw,
    };
    match signature_from(&raw) {
        None => Err(
            Error::Verification("signature file must contain exactly 64 raw bytes".to_owned()),
        ),
        Some(s) => verify_bundle_signature_bytes(b.as_slice(), &s, trusted_public_key),
    }
}

/// A signature file of any other length than a signature's is refused, whatever
/// the key: cut short, or with anything before or after it.
pub proof fn law_signature_of_another_length_is_refused(
    bundle: Vec<u8>,
    raw: Vec<u8>,
    key: Seq<u8>,
)
    requires
        raw@.len() != SIGNATURE_BYTES,
    ensures
        signature_file_check(Ok(bundle), Ok(raw), key) == Err::<(), ErrorView>(
            ErrorView::Verification("signature file must contain exactly 64 raw bytes"@),
        ),
{
}

/// A signature that passes for a bundle passes for other bytes only where the
/// key accepts it for the digest of other bytes too: where it accepts one
/// signature for two digests, or where SHA-256 gives one digest for both.
pub proof fn law_altered_bundle_needs_a_second_acceptance(
    bundle: Seq<u8>,
    altered: Seq<u8>,
    signature: Seq<u8>,
    key: Seq<u8>,
)
    requires
        bundle != altered,
        signature_check(bundle, signature, key) is Ok,
    ensures
        commitment_preimage(bundle) != commitment_preimage(altered),
        signature_check(altered, signature, key) is Ok <==> accepts(
            key,
            digest::sha256_of(commitment_preimage(altered))@,
            signature,
        ),
        !accepts(key, commitment_of(altered)@, signature) ==> signature_check(
            altered,
            signature,
            key,
        ) == Err::<(), ErrorView>(ErrorView::Verification("bundle signature is invalid"@)),
{
    if commitment_preimage(bundle) == commitment_preimage(altered) {
        law_commitment_covers_exact_bytes(bundle, altered);
    }
}

} // verus!
