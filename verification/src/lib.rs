//! A permissive partial-object codec: a fixed schema of independently
//! optional fields, decoded from untrusted JSON, re-encoded as canonical
//! JSON text and as a query string.

pub mod codec;
pub mod json;
pub mod text;
pub mod time;

pub use codec::PartialObject;
pub use codec::PartialObjectEnum;
pub use json::JsonValue;
