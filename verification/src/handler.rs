//! The request decision path: headers, then signature verification, then
//! envelope decoding, then dispatch, then encoding.  Verification
//! short-circuits the pipeline: a request whose signature does not verify is
//! refused before its body is decoded.  Every failure maps to one fixed
//! status and one fixed, non-detailed message.

use vstd::prelude::*;
use vstd::utf8::encode_utf8;
use crate::auth::{ed25519_verifies, s_signed_message, verify_discord_message, AuthError,
    VerifyKey, SIG_LEN};
use crate::dispatch::{dispatch, s_is_word, s_lookup, CommandRegistry};
use crate::encode::{encode, pong_wire, s_encode_cmws};
use crate::envelope::{decode, s_decode, SpecInteraction};
use crate::hex::spec_parse_hex;

verus! {

/// One request header as the transport hands it over: absent, present but
/// not readable as text, or its text.
pub enum HeaderInput {
    Missing,
    NotText,
    Text(String),
}

/// Why a request was refused; each case maps to one fixed status code and
/// message.
#[derive(Debug, Clone, Copy, PartialEq, Eq, Structural)]
pub enum RequestError {
    /// No signature header was given.
    MissingSignature,
    /// The signature header is not readable as text.
    SignatureNotText,
    /// No timestamp header was given.
    MissingTimestamp,
    /// The timestamp header is not readable as text.
    TimestampNotText,
    /// The signature hex does not decode to 64 bytes.
    MalformedSignature,
    /// Cryptographic verification failed.
    InvalidSignature,
    /// The body matches no known envelope variant.
    UnrecognizedEnvelope,
    /// The invocation names no registered command.
    UnknownCommand,
}

impl RequestError {
    /// The HTTP status for this refusal: 401 for a well-formed signature
    /// that fails verification, 400 for everything else.
    pub open spec fn spec_status(self) -> u16 {
        if self is InvalidSignature {
            401
        } else {
            400
        }
    }

    /// The HTTP status for this refusal.
    pub fn status(&self) -> (s: u16)
        ensures
            s == self.spec_status(),
    {
        match self {
            RequestError::InvalidSignature => 401,
            _ => 400,
        }
    }

    /// The fixed message texts, one per refusal.
    pub open spec fn spec_message(self) -> Seq<char> {
        match self {
            RequestError::MissingSignature => "expected signature key"@,
            RequestError::SignatureNotText => "expected signature key to be valid string"@,
            RequestError::MissingTimestamp => "expected signature timestamp"@,
            RequestError::TimestampNotText => "expected signature timestamp to be valid string"@,
            RequestError::MalformedSignature => "invalid!!!"@,
            RequestError::InvalidSignature => "invalid!!!"@,
            RequestError::UnrecognizedEnvelope => "failed to parse interaction"@,
            RequestError::UnknownCommand => "unknown command"@,
        }
    }

    /// The fixed, non-detailed message for this refusal.
    pub fn message(&self) -> (m: &'static str)
        ensures
            m@ == self.spec_message(),
    {
        match self {
            RequestError::MissingSignature => "expected signature key",
            RequestError::SignatureNotText => "expected signature key to be valid string",
            RequestError::MissingTimestamp => "expected signature timestamp",
            RequestError::TimestampNotText => "expected signature timestamp to be valid string",
            RequestError::MalformedSignature => "invalid!!!",
            RequestError::InvalidSignature => "invalid!!!",
            RequestError::UnrecognizedEnvelope => "failed to parse interaction",
            RequestError::UnknownCommand => "unknown command",
        }
    }
}

/// The refusal a request's headers alone force, if any: the signature header
/// is examined before the timestamp header.
pub open spec fn s_header_error(signature: HeaderInput, timestamp: HeaderInput) -> Option<
    RequestError,
> {
    match signature {
        HeaderInput::Missing => Some(RequestError::MissingSignature),
        HeaderInput::NotText => Some(RequestError::SignatureNotText),
        HeaderInput::Text(_) => match timestamp {
            HeaderInput::Missing => Some(RequestError::MissingTimestamp),
            HeaderInput::NotText => Some(RequestError::TimestampNotText),
            HeaderInput::Text(_) => None,
        },
    }
}

/// The refusal authentication forces, if any, over the signature text, the
/// timestamp text and the body.
pub open spec fn s_auth_error(
    key: Seq<u8>,
    sig_text: Seq<u8>,
    ts_text: Seq<u8>,
    body: Seq<u8>,
) -> Option<RequestError> {
    match spec_parse_hex(sig_text, SIG_LEN as nat) {
        None => Some(RequestError::MalformedSignature),
        Some(sig) => if ed25519_verifies(key, s_signed_message(ts_text, body), sig) {
            None
        } else {
            Some(RequestError::InvalidSignature)
        },
    }
}

/// Handle one request: verify, decode, dispatch, encode.  The reply bytes of
/// a ping are exactly the pong wire; the reply bytes of a registered command
/// are the channel-message wire carrying one of that command's words; every
/// other outcome is the refusal the stage that failed assigns to it.
pub fn handle_request(
    key: &VerifyKey,
    signature: &HeaderInput,
    timestamp: &HeaderInput,
    body: &[u8],
    registry: &CommandRegistry,
) -> (r: Result<Vec<u8>, RequestError>)
    requires
        key.wf(),
        registry.wf(),
    ensures
        s_header_error(*signature, *timestamp) matches Some(e) ==> r == Err::<Vec<u8>,
            RequestError,
        >(e),
        *signature matches HeaderInput::Text(sg) ==> (*timestamp matches HeaderInput::Text(ts)
            ==> match s_auth_error(key@, encode_utf8(sg@), encode_utf8(ts@), body@) {
            Some(e) => r == Err::<Vec<u8>, RequestError>(e),
            None => match s_decode(body@) {
                None => r == Err::<Vec<u8>, RequestError>(RequestError::UnrecognizedEnvelope),
                Some(SpecInteraction::Ping) => (r matches Ok(out) && out@ == pong_wire()),
                Some(SpecInteraction::ApplicationCommand(nm)) => match s_lookup(
                    registry.entries@,
                    nm,
                ) {
                    None => r == Err::<Vec<u8>, RequestError>(RequestError::UnknownCommand),
                    Some(idx) => (r matches Ok(out) && exists|content: Seq<u8>|
                        s_is_word(registry.entries@, nm, content) && out@ == s_encode_cmws(
                            content,
                        )),
                },
            },
        }),
{
    let sig_text = match signature {
        HeaderInput::Missing => {
            return Err(RequestError::MissingSignature);
        },
        HeaderInput::NotText => {
            return Err(RequestError::SignatureNotText);
        },
        HeaderInput::Text(s) => s,
    };
    let ts_text = match timestamp {
        HeaderInput::Missing => {
            return Err(RequestError::MissingTimestamp);
        },
        HeaderInput::NotText => {
            return Err(RequestError::TimestampNotText);
        },
        HeaderInput::Text(s) => s,
    };
    match verify_discord_message(key, sig_text.as_str(), ts_text.as_str(), body) {
        Err(AuthError::MalformedSignature) => {
            return Err(RequestError::MalformedSignature);
        },
        Err(AuthError::InvalidSignature) => {
            return Err(RequestError::InvalidSignature);
        },
        Ok(()) => {},
    }
    let interaction = match decode(body) {
        Err(_) => {
            return Err(RequestError::UnrecognizedEnvelope);
        },
        Ok(i) => i,
    };
    let response = match dispatch(&interaction, registry) {
        Err(_) => {
            return Err(RequestError::UnknownCommand);
        },
        Ok(resp) => resp,
    };
    Ok(encode(&response))
}

} // verus!
