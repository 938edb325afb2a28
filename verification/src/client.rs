//! Generic light-client building blocks: the signer bitmap, the public-key
//! and signature-payload unions with their verification dispatch, and the
//! interface every client kind presents to the dispatcher.

pub mod bit_array;
pub mod client_type;
pub mod codec;
pub mod crypto;
pub mod error;
pub mod header;
pub mod height;
pub mod misbehaviour;
pub mod signature_codec;
