//! Trust-verification engine for a solo-machine light client.
//!
//! The crate decides whether a cryptographically signed update to a
//! single-signer (or multi-signer) light client is authentic, sequential and
//! non-conflicting, and computes the resulting trusted state.  Signature
//! schemes are dispatched over a closed set of key variants, including a
//! threshold multi-signature scheme whose signer subset is a packed bitmap.

pub mod client;
pub mod solo_machine;
pub mod wire;
