//! Authentication and typed-envelope protocol core for a signed webhook
//! receiver: hex decoding of key and signature material, Ed25519 signature
//! verification over `timestamp ++ body`, discriminant-checked decoding of
//! inbound interaction envelopes, command dispatch, and discriminant-stamped
//! encoding of outbound responses.

pub mod hex;
pub mod json;
pub mod envelope;
pub mod encode;
pub mod auth;
pub mod dispatch;
pub mod handler;
pub mod platform;

pub use auth::verify_discord_message;
pub use handler::handle_request;
pub use hex::parse_hex;
