//! Configuration read at startup: the port to listen on.

use vstd::prelude::*;
use crate::decimal::{parse_u16, parse_u16_spec};

verus! {

/// The port the server listens on when none is configured.
pub const DEFAULT_PORT: u16 = 8008;

/// Why the configuration was refused.
#[derive(Clone, Copy, Debug, PartialEq, Eq, Structural)]
pub enum ConfigError {
    /// The configured port is not the decimal literal of a 16-bit number.
    InvalidPort,
}

/// The value of a setting that may be missing.
pub open spec fn setting_view(value: Option<&str>) -> Option<Seq<char>> {
    match value {
        Some(text) => Some(text@),
        None => None,
    }
}

/// The port that a setting stands for: the default when there is none, else
/// the number it denotes.
pub open spec fn port_of(value: Option<Seq<char>>) -> Result<u16, ConfigError> {
    match value {
        None => Ok(DEFAULT_PORT),
        Some(text) => match parse_u16_spec(text) {
            Some(port) => Ok(port),
            None => Err(ConfigError::InvalidPort),
        },
    }
}

/// The port to listen on, given the value of the port setting, if it is set.
pub fn port_from(value: Option<&str>) -> (r: Result<u16, ConfigError>)
    ensures
        r == port_of(setting_view(value)),
{
    match value {
        None => Ok(DEFAULT_PORT),
        Some(text) => match parse_u16(text) {
            Some(port) => Ok(port),
            None => Err(ConfigError::InvalidPort),
        },
    }
}

} // verus!
