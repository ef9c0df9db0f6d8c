//! Discovers RBLN accelerator hardware on a host and renders the result as a
//! line-oriented label file: which devices are present, how many, which
//! product and family they belong to, and which driver version is installed.
//!
//! The crate holds the decision logic of one collection pass: normalizing raw
//! hardware identifiers into a product taxonomy, parsing driver version
//! strings, assembling a feature record from either a management-daemon
//! answer or a sysfs walk (daemon first, sysfs as fallback), and serializing
//! the record. The surrounding process wiring (RPC transport, filesystem
//! reads, the clock) stays outside and hands plain values in.

pub mod collector;
pub mod errors;
pub mod features;
pub mod taxonomy;
pub mod text;
pub mod version;
