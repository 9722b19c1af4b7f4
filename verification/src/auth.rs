//! Signature verification: a request is authentic exactly when its hex
//! signature decodes to 64 bytes that verify, under the held Ed25519 key,
//! over the byte-exact concatenation `timestamp ++ body`.  Every mismatch is
//! the same opaque failure: the caller may be adversarial and learns nothing
//! of why verification failed.

use vstd::prelude::*;
use vstd::string::StringSliceAdditionalSpecFns;
use ed25519_dalek::Verifier;
use crate::hex::{parse_hex, spec_parse_hex};

verus! {

/// Length in bytes of a verifying key.
pub const KEY_LEN: usize = 32;

/// Length in bytes of a signature.
pub const SIG_LEN: usize = 64;

/// Authentication failure.
#[derive(Debug, Clone, Copy, PartialEq, Eq, Structural)]
pub enum AuthError {
    /// The signature hex does not decode to 64 bytes.
    MalformedSignature,
    /// Cryptographic verification failed; the reason is deliberately opaque.
    InvalidSignature,
}

/// The process-wide verifying key: 32 raw bytes, immutable after
/// construction.
pub struct VerifyKey {
    bytes: Vec<u8>,
}

/// Whether Ed25519 verification of `sig` over `msg` succeeds under the key
/// with bytes `key`.  A deterministic function of its arguments; a key whose
/// bytes form no valid point verifies nothing.
pub uninterp spec fn ed25519_verifies(key: Seq<u8>, msg: Seq<u8>, sig: Seq<u8>) -> bool;

/// Relies on `ed25519_dalek::VerifyingKey::from_bytes`,
/// `ed25519_dalek::Signature::from_bytes` and
/// `ed25519_dalek::Verifier::verify`: Ed25519 verification, a deterministic
/// function of the key bytes, message and signature bytes alone; a key whose
/// bytes form no valid curve point verifies nothing.
#[verifier::external_body]
fn ed25519_verify(key: &[u8], msg: &[u8], sig: &[u8]) -> (r: bool)
    requires
        key@.len() == KEY_LEN,
        sig@.len() == SIG_LEN,
    ensures
        r == ed25519_verifies(key@, msg@, sig@),
{
    let key_arr: [u8; 32] = match key.try_into() {
        Ok(a) => a,
        Err(_) => return false,
    };
    let sig_arr: [u8; 64] = match sig.try_into() {
        Ok(a) => a,
        Err(_) => return false,
    };
    let vk = match ed25519_dalek::VerifyingKey::from_bytes(&key_arr) {
        Ok(k) => k,
        Err(_) => return false,
    };
    vk.verify(msg, &ed25519_dalek::Signature::from_bytes(&sig_arr)).is_ok()
}

impl VerifyKey {
    /// The key's raw bytes.
    pub closed spec fn view(&self) -> Seq<u8> {
        self.bytes@
    }

    /// A key holds exactly 32 bytes.
    pub closed spec fn wf(&self) -> bool {
        self.bytes@.len() == KEY_LEN
    }

    /// Hold the given raw key bytes; exactly 32 must be given.
    pub fn from_bytes(bytes: Vec<u8>) -> (r: Option<VerifyKey>)
        ensures
            r matches Some(k) ==> k.wf() && k@ == bytes@,
            r is None <==> bytes@.len() != KEY_LEN,
    {
        if bytes.len() == KEY_LEN {
            Some(VerifyKey { bytes })
        } else {
            None
        }
    }

    /// Decode a key from its hex form: 64 hex digits for 32 bytes.
    pub fn from_hex(s: &str) -> (r: Option<VerifyKey>)
        ensures
            match r {
                Some(k) => k.wf() && spec_parse_hex(s.spec_bytes(), KEY_LEN as nat) == Some(k@),
                None => spec_parse_hex(s.spec_bytes(), KEY_LEN as nat) is None,
            },
    {
        match parse_hex(s, KEY_LEN) {
            Some(bytes) => VerifyKey::from_bytes(bytes),
            None => None,
        }
    }
}

/// The signed message: the timestamp's bytes followed by the body's, with no
/// separator and no re-encoding.
pub open spec fn s_signed_message(timestamp: Seq<u8>, body: Seq<u8>) -> Seq<u8> {
    timestamp + body
}

/// Verify a request's signature.  Succeeds exactly when the hex signature
/// decodes to 64 bytes that verify over `timestamp ++ body` under the key;
/// a signature whose hex is malformed is reported as such, and any
/// cryptographic mismatch is the one opaque failure.
pub fn verify_discord_message(
    public_key: &VerifyKey,
    signature: &str,
    timestamp: &str,
    body: &[u8],
) -> (r: Result<(), AuthError>)
    requires
        public_key.wf(),
    ensures
        match spec_parse_hex(signature.spec_bytes(), SIG_LEN as nat) {
            None => r == Err::<(), AuthError>(AuthError::MalformedSignature),
            Some(sig) => if ed25519_verifies(
                public_key@,
                s_signed_message(timestamp.spec_bytes(), body@),
                sig,
            ) {
                r == Ok::<(), AuthError>(())
            } else {
                r == Err::<(), AuthError>(AuthError::InvalidSignature)
            },
        },
{
    let sig_bytes = match parse_hex(signature, SIG_LEN) {
        Some(b) => b,
        None => {
            return Err(AuthError::MalformedSignature);
        },
    };
    let ts = timestamp.as_bytes();
    let mut msg: Vec<u8> = Vec::new();
    let mut k: usize = 0;
    while k < ts.len()
        invariant
            k <= ts@.len(),
            ts@ == timestamp.spec_bytes(),
            msg@ == ts@.take(k as int),
        decreases ts@.len() - k,
    {
        msg.push(ts[k]);
        proof {
            assert(msg@ =~= ts@.take(k + 1 as int));
        }
        k = k + 1;
    }
    proof {
        assert(ts@.take(ts@.len() as int) =~= ts@);
    }
    let mut k2: usize = 0;
    while k2 < body.len()
        invariant
            k2 <= body@.len(),
            msg@ == timestamp.spec_bytes() + body@.take(k2 as int),
        decreases body@.len() - k2,
    {
        msg.push(body[k2]);
        proof {
            assert(msg@ =~= timestamp.spec_bytes() + body@.take(k2 + 1 as int));
        }
        k2 = k2 + 1;
    }
    proof {
        assert(body@.take(body@.len() as int) =~= body@);
        assert(msg@ == s_signed_message(timestamp.spec_bytes(), body@));
    }
    if ed25519_verify(public_key.bytes.as_slice(), msg.as_slice(), sig_bytes.as_slice()) {
        Ok(())
    } else {
        Err(AuthError::InvalidSignature)
    }
}

} // verus!
