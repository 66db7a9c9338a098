//! Message bus for editor-extension sessions: the wire envelope, the
//! decisions of the per-owner bus daemon, the client-side connection
//! manager that correlates replies with requests, and the parser of the
//! expression dialect carried in payloads.

pub mod backoff;
pub mod bus;
pub mod connection;
pub mod dialect;
pub mod slots;
pub mod text;
pub mod types;
pub mod wire;
