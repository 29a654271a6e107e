//! A device-identity registry.
//!
//! The registry mints globally unique 16-byte identifiers for newly
//! registered devices, binds each to an owning account, and maintains a
//! per-owner ownership index and a global count under strict capacity and
//! overflow constraints. Identifier candidates are derived deterministically
//! from host-supplied entropy and call context; uniqueness is enforced at
//! commit time, and every commit is all-or-nothing across the device map,
//! the owner index and the counter.

pub mod device;
pub mod id_gen;
pub mod laws;
pub mod registry;
