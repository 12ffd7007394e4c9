//! The settings of the element, and the properties that give access to them.
use vstd::prelude::*;

use crate::time::{DEFAULT_LATENCY, MSECOND};

verus! {

/// The server of an element whose server was not set.
pub const DEFAULT_SERVER_ADDRESS: &'static str = "ws://localhost:2700";

/// The settings of the element.
#[derive(Debug, Clone, PartialEq, Eq)]
pub struct Settings {
    /// Total time to allow for transcribing audio: how late the buffers will be.
    pub latency: u64,
    /// The address of the server to connect to for transcription.
    pub server_address: String,
}

/// The settings as a mathematical value.
#[verifier::ext_equal]
pub struct SettingsView {
    pub latency: int,
    pub server_address: Seq<char>,
}

impl View for Settings {
    type V = SettingsView;

    open spec fn view(&self) -> SettingsView {
        SettingsView { latency: self.latency as int, server_address: self.server_address@ }
    }
}

impl Default for Settings {
    fn default() -> (settings: Self)
        ensures
            settings@ == (SettingsView {
                latency: DEFAULT_LATENCY as int,
                server_address: DEFAULT_SERVER_ADDRESS@,
            }),
    {
        Settings {
            latency: DEFAULT_LATENCY,
            server_address: DEFAULT_SERVER_ADDRESS.to_owned(),
        }
    }
}

/// A property of the element.
#[derive(Debug, Clone, Copy, PartialEq, Eq)]
pub enum PropertyId {
    Latency,
    ServerAddress,
}

/// A property of the element, with its value.
#[derive(Debug, Clone, PartialEq, Eq)]
pub enum Property {
    /// The latency in milliseconds.
    Latency(u32),
    /// The address of the server.
    ServerAddress(String),
}

/// The property that a name stands for.
pub open spec fn property_named(name: Seq<char>) -> Option<PropertyId> {
    if name == "latency"@ {
        Some(PropertyId::Latency)
    } else if name == "server-address"@ {
        Some(PropertyId::ServerAddress)
    } else {
        None
    }
}

/// A time in whole milliseconds, as far as 32 bits hold it.
pub open spec fn milliseconds(time: int) -> int {
    (time / MSECOND as int) % 0x1_0000_0000
}

impl SettingsView {
    /// The settings once a property has been set.
    pub open spec fn with_property(self, property: Property) -> SettingsView {
        match property {
            Property::Latency(ms) => SettingsView { latency: ms * MSECOND, ..self },
            Property::ServerAddress(address) => SettingsView { server_address: address@, ..self },
        }
    }
}

impl PropertyId {
    /// The property that a name stands for.
    pub fn from_name(name: &str) -> (id: Option<PropertyId>)
        ensures
            id == property_named(name@),
    {
        let name: String = name.to_owned();
        if name == "latency".to_owned() {
            Some(PropertyId::Latency)
        } else if name == "server-address".to_owned() {
            Some(PropertyId::ServerAddress)
        } else {
            None
        }
    }
}

impl Settings {
    /// Sets a property.
    pub fn set_property(&mut self, property: Property)
        ensures
            final(self)@ == old(self)@.with_property(property),
    {
        match property {
            Property::Latency(ms) => {
                self.latency = ms as u64 * MSECOND;
            },
            Property::ServerAddress(address) => {
                self.server_address = address;
            },
        }
    }

    /// The value of a property.
    pub fn property(&self, id: PropertyId) -> (property: Property)
        ensures
            match id {
                PropertyId::Latency => property matches Property::Latency(ms) && ms == milliseconds(
                    self@.latency,
                ),
                PropertyId::ServerAddress => property matches Property::ServerAddress(address)
                    && address@ == self@.server_address,
            },
    {
        match id {
            PropertyId::Latency => {
                let ms: u64 = self.latency / MSECOND;
                assert(ms as u32 == ms % 0x1_0000_0000u64) by (bit_vector);
                Property::Latency(
                    #[verifier::truncate]
                    (ms as u32),
                )
            },
            PropertyId::ServerAddress => Property::ServerAddress(self.server_address.clone()),
        }
    }
}

} // verus!
