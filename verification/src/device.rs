use vstd::prelude::*;

verus! {

/// An opaque, already-verified account reference. Callers are authenticated
/// by the surrounding host before they ever reach this registry, so the
/// registry itself only needs a value it can compare for equality.
pub type AccountId = u64;

/// One registered device: a 16-byte unique identifier and the account that
/// registered it. Records are immutable once minted; the registry offers no
/// update, transfer or burn operation.
#[derive(Clone, Copy, Debug, PartialEq, Eq)]
pub struct IotDevice {
    pub unique_id: [u8; 16],
    pub owner: AccountId,
}

/// Configuration supplied when the registry is constructed.
#[derive(Clone, Copy, Debug)]
pub struct Config {
    /// Upper bound on the number of devices a single account may own.
    pub max_owned: u32,
}

/// Why a mint attempt was rejected. Every failure leaves the registry
/// exactly as it was.
#[derive(Clone, Copy, Debug, PartialEq, Eq)]
pub enum Error {
    /// The candidate identifier is already present in the device map.
    DuplicateDevices,
    /// The owner already holds `max_owned` devices.
    MaximumDevicesOwned,
    /// The global device counter is at its maximum representable value.
    BoundsOverflow,
}

/// A notification recorded after a successful commit, exactly once per mint.
#[derive(Clone, Copy, Debug, PartialEq, Eq)]
pub enum Event {
    /// A new device was successfully registered.
    CollectibleCreated { collectible: [u8; 16], owner: AccountId },
}

} // verus!
