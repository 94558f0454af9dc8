//! Errors that stop a relay layer before it starts.

use vstd::prelude::*;

verus! {

/// Why a layer cannot start with the configuration it was given.
#[derive(Clone, Copy, Debug, PartialEq, Eq, Structural)]
pub enum ConfigError {
    /// No configured interface name belongs to an interface that is up and
    /// is not a loopback.
    NoInterface,
    /// The host is attached to no private IPv4 network.
    NoLocalNetwork,
    /// The list of relay destinations is empty.
    NoRelayTarget,
}

impl ConfigError {
    /// A short description for the operator.
    pub fn message(&self) -> (text: &'static str)
        ensures
            text@ == (match *self {
                ConfigError::NoInterface => "no suitable L2 interfaces available!"@,
                ConfigError::NoLocalNetwork => "no available networks!"@,
                ConfigError::NoRelayTarget => "no relay networks specified!"@,
            }),
    {
        match self {
            ConfigError::NoInterface => "no suitable L2 interfaces available!",
            ConfigError::NoLocalNetwork => "no available networks!",
            ConfigError::NoRelayTarget => "no relay networks specified!",
        }
    }
}

} // verus!
