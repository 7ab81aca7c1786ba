//! A registry of authenticity proofs for captured images: each proof binds an
//! owner, a content hash, a storage locator, an issuer signature and a capture
//! timestamp, and lives at an address derived from (owner, content hash).
use vstd::prelude::*;

pub mod address;
pub mod codec;
pub mod lifecycle;
pub mod record;
pub mod registry;
pub mod validate;
