//! A persistent, content-addressed registry of filesystem locations.
//!
//! The registry maps canonical paths to stable opaque keys. A caller
//! registers a directory once, receives a reusable key, and can later
//! resolve that key back to the directory's last-known location, even
//! after the directory has been moved or deleted. The verified core
//! maintains the registry relation (key to path) and its guarantees:
//! deterministic key derivation, idempotent registration, tolerance of
//! stale targets, and complete enumeration. A persistent backing (for
//! example a directory of symlinks, one per binding) lives outside the
//! verified core and mirrors these operations.

mod bytes;
mod entry;
mod envs;
mod error;
mod key;
mod laws;
mod path;
mod registry;

pub use entry::EntryView;
pub use entry::RegistryEntry;
pub use envs::RegisteredEnvironments;
pub use error::RegistryError;
pub use key::RegistryKey;
pub use key::digest_of;
pub use key::encode_path;
pub use key::is_digest_text;
pub use key::is_hex_char;
pub use laws::lemma_key_derivation_deterministic;
pub use laws::lemma_register_idempotent;
pub use laws::lemma_register_lookup_round_trip;
pub use laws::lemma_two_registrations_complete;
pub use laws::lemma_unregister_missing_noop;
pub use laws::lemma_unregister_removes;
pub use laws::two_registrations;
pub use path::CanonicalPath;
pub use registry::LinkRegistry;
pub use registry::lookup_model;
pub use registry::register_model;
pub use registry::unregister_model;
