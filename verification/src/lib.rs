//! An HTTP image proxy core: cache-key derivation, a two-tier on-disk cache
//! (origin tier and per-size derivative tier), and the fetch-once /
//! transform-once resolution logic, with image resizing done through the
//! `image` crate.
//!
//! The library holds the verified logic only; the surrounding process
//! (HTTP server, filesystem, network client) drives it through the
//! [`resolver::Resolver`] state machine.

use vstd::prelude::*;

pub mod coordinator;
pub mod laws;
pub mod memstore;
pub mod paths;
pub mod resolver;
pub mod size;
pub mod transform;

verus! {

} // verus!
