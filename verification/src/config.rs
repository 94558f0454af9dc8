//! The configuration of the repeater.

use crate::layer2::Layer2Config;
use crate::layer4::Layer4Config;
use vstd::prelude::*;

verus! {

/// Configuration of both layers. A layer without a section is switched off.
#[derive(Debug)]
pub struct Config {
    pub layer2: Option<Layer2Config>,
    pub layer4: Option<Layer4Config>,
}

/// A configuration section that may be present and yet left empty.
pub trait Section: Sized {
    /// Whether nothing is filled in.
    spec fn is_unset(&self) -> bool;

    /// The section with nothing filled in.
    fn unset() -> (section: Self)
        ensures
            section.is_unset(),
    ;
}

impl Section for Layer2Config {
    open spec fn is_unset(&self) -> bool {
        self.interfaces@.len() == 0
    }

    fn unset() -> (section: Layer2Config) {
        Layer2Config { interfaces: Vec::new() }
    }
}

impl Section for Layer4Config {
    open spec fn is_unset(&self) -> bool {
        self.listen_on@.len() == 0 && self.relay_to@.len() == 0
    }

    fn unset() -> (section: Layer4Config) {
        Layer4Config { listen_on: Vec::new(), relay_to: Vec::new() }
    }
}

/// Gives the value of a section that is present in the configuration: the
/// section as it was read, or the unset section where it was left empty. A
/// section that is absent altogether never gets here and stays `None`.
pub fn deserialize_absent_or_null<T: Section>(section: Option<T>) -> (value: Option<T>)
    ensures
        match section {
            Some(read) => value == Some(read),
            None => value matches Some(v) && v.is_unset(),
        },
{
    match section {
        Some(read) => Some(read),
        None => Some(T::unset()),
    }
}

} // verus!
