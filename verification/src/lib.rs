//! Client-side driver logic for the USBTMC (USB Test and Measurement Class)
//! protocol: framing outgoing messages, maintaining the rolling transfer tag,
//! chunking large payloads, resolving bulk endpoints from a descriptor tree,
//! selecting a device by identity filters, and parsing instrument responses.
//!
//! The generic USB transport (enumeration, opening devices, bulk transfers,
//! kernel-driver handling) is an external collaborator and lives outside this
//! library; callers hand descriptor data in and carry frames out.

pub mod endpoint;
pub mod error;
pub mod frames;
pub mod helper;
pub mod instrument;
pub mod response;
