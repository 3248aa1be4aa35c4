//! What the receiver is set up to do.

use crate::decimal::{decimal, push_decimal};
use vstd::prelude::*;
use vstd::string::*;

verus! {

/// The port that is listened on where none is given.
pub const DEFAULT_PORT: u16 = 13587;

/// Where the receiver listens.
#[derive(Clone, Copy, Debug, PartialEq, Eq)]
pub struct NetworkConfig {
    pub port: u16,
}

/// All settings.
#[derive(Clone, Copy, Debug, PartialEq, Eq)]
pub struct Config {
    pub network: NetworkConfig,
}

/// What was found where the settings are stored.
#[derive(Clone, Copy, Debug, PartialEq, Eq)]
pub enum Stored {
    /// There is no file.
    Missing,
    /// There is a file, and these are the settings in it; `None` where it cannot
    /// be read or makes no sense.
    Present(Option<Config>),
}

/// The settings to begin with.
#[derive(Clone, Copy, Debug, PartialEq, Eq)]
pub struct Loaded {
    pub config: Config,
    /// The settings are to be stored.
    pub store: bool,
}

/// The settings of a fresh installation.
pub open spec fn default_config() -> Config {
    Config { network: NetworkConfig { port: DEFAULT_PORT } }
}

impl Default for Config {
    fn default() -> (config: Config)
        ensures
            config == default_config(),
    {
        Config { network: NetworkConfig { port: DEFAULT_PORT } }
    }
}

/// The settings to begin with: those that were found, or the default ones. Only
/// where there is no file is one to be written.
pub fn load_config(stored: Stored) -> (loaded: Loaded)
    ensures
        loaded.config == (match stored {
            Stored::Present(Some(config)) => config,
            _ => default_config(),
        }),
        loaded.store <==> stored is Missing,
{
    match stored {
        Stored::Present(Some(config)) => Loaded { config, store: false },
        Stored::Present(None) => Loaded { config: Config::default(), store: false },
        Stored::Missing => Loaded { config: Config::default(), store: true },
    }
}

impl NetworkConfig {
    /// The address to listen on: the port, on every interface.
    pub fn listen_address(&self) -> (s: String)
        ensures
            s@ == "0.0.0.0:"@ + decimal(self.port as nat),
    {
        let mut s = "0.0.0.0:".to_owned();
        push_decimal(&mut s, self.port as u64);
        s
    }
}

} // verus!
