//! Core of a device-fingerprinting and request-signing protocol client:
//! canonical serialization of a structured value, a fixed per-field
//! obfuscation table with DES field encryption, the gzip/AES payload
//! pipeline, and the per-request HMAC signature.
pub mod canon;
pub mod descriptor;
pub mod fieldcipher;
pub mod json;
pub mod laws;
pub mod numfmt;
pub mod order;
pub mod outside;
pub mod pipeline;
pub mod rules;
pub mod session;
pub mod signer;
pub mod value;

pub use pipeline::CoreError;
pub use value::{FieldModel, FieldValue};
