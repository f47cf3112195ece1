//! Session-level configuration choices.
//!
//! Opening and authenticating the transport itself is plumbing outside this
//! library; what belongs here is the decision logic: how a requested
//! synchronization policy translates into the two connection settings the
//! backend expects.

use vstd::prelude::*;

verus! {

/// How a session should synchronize with the wider network.
#[derive(Debug, Clone, Copy, PartialEq, Eq, Structural)]
pub enum NetworkSync {
    /// Sync with the default network configuration.
    Sync,
    /// Sync only over the local network.
    LocalOnly,
    /// Do not sync at all.
    NoSync,
}

/// The backend's network-mode setting.
#[derive(Debug, Clone, Copy, PartialEq, Eq, Structural)]
pub enum NetworkMode {
    /// The backend's default network configuration.
    DefaultConfig,
    /// Restrict traffic to the local network.
    LocalOnly,
}

impl NetworkSync {
    /// Whether this policy turns off syncing over the local network.
    pub fn disables_local_network_sync(&self) -> (r: bool)
        ensures
            r == (*self is NoSync),
    {
        match self {
            NetworkSync::Sync | NetworkSync::LocalOnly => false,
            NetworkSync::NoSync => true,
        }
    }

    /// The network mode a session with this policy must be opened with.
    pub fn network_mode(&self) -> (r: NetworkMode)
        ensures
            r == (if *self is Sync {
                NetworkMode::DefaultConfig
            } else {
                NetworkMode::LocalOnly
            }),
    {
        match self {
            NetworkSync::Sync => NetworkMode::DefaultConfig,
            NetworkSync::LocalOnly | NetworkSync::NoSync => NetworkMode::LocalOnly,
        }
    }
}

} // verus!
