//! Ingestion and dispatch of repository events from a federated event stream.

pub mod archive;
pub mod cbor;
pub mod commit;
pub mod dispatch;
pub mod driver;
pub mod frame;
pub mod record;
pub mod registry;
pub mod sms;
pub mod text;
pub mod varint;
