//! The solo-machine light client: its data model, canonical signing payload,
//! header-driven state transition and misbehaviour validation.

pub mod client_def;
pub mod client_state;
pub mod codec;
pub mod consensus_state;
pub mod data_type;
pub mod header;
pub mod header_data;
pub mod misbehaviour;
pub mod sign_bytes;
pub mod signature_and_data;
