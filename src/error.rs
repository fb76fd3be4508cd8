use vstd::prelude::*;
use crate::config::ConfigError;
use crate::event::DecodeError;

verus! {

/// Why applying an effect to the lighting controller failed.
#[derive(Debug, Clone, Copy, PartialEq, Eq, Structural)]
pub enum DeviceError {
    /// The controller's endpoints could not be enumerated.
    Unreachable,
    /// The effect's color is not a three-byte hex RGB value.
    InvalidColor,
}

/// The errors the service reports, each with its message.
#[derive(Debug, Clone)]
pub enum AppError {
    Io(String),
    Json(String),
    SocketIo(String),
    Bridge(String),
    InvalidAmount(String),
}

impl AppError {
    /// The report of a payload that did not decode.
    pub fn from_decode(e: DecodeError) -> (r: AppError)
        ensures
            e is Malformed ==> r is Json,
            e matches DecodeError::InvalidAmount(t) ==> (r matches AppError::InvalidAmount(u) && u@
                == t@),
    {
        match e {
            DecodeError::Malformed => AppError::Json(String::from_str("malformed event payload")),
            DecodeError::InvalidAmount(t) => AppError::InvalidAmount(t),
        }
    }

    /// The report of a failed device application.
    pub fn from_device(e: DeviceError) -> (r: AppError)
        ensures
            r is Bridge,
    {
        match e {
            DeviceError::Unreachable => AppError::Bridge(String::from_str("lights unreachable")),
            DeviceError::InvalidColor => AppError::Bridge(String::from_str("invalid hex color")),
        }
    }

    /// The report of a refused configuration.
    pub fn from_config(e: ConfigError) -> (r: AppError)
        ensures
            r is Json,
    {
        match e {
            ConfigError::NoTiers => AppError::Json(String::from_str("a tiered event has no tiers")),
            ConfigError::TiersOutOfOrder => AppError::Json(
                String::from_str("tier thresholds must strictly decrease"),
            ),
            ConfigError::BrightnessOutOfRange => AppError::Json(
                String::from_str("brightness must be at most 254"),
            ),
        }
    }

    /// The message of the error.
    pub fn message(&self) -> (m: &String)
        ensures
            match self {
                AppError::Io(s) => m == s,
                AppError::Json(s) => m == s,
                AppError::SocketIo(s) => m == s,
                AppError::Bridge(s) => m == s,
                AppError::InvalidAmount(s) => m == s,
            },
    {
        match self {
            AppError::Io(s) => s,
            AppError::Json(s) => s,
            AppError::SocketIo(s) => s,
            AppError::Bridge(s) => s,
            AppError::InvalidAmount(s) => s,
        }
    }
}

} // verus!
