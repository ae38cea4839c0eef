//! A break-reminder core: a deterministic, time-driven engine that schedules
//! micro breaks, rest breaks and a daily usage limit from accumulated active
//! time, plus per-day outcome aggregation and a keyed store of settings
//! profiles. The engine never reads a clock; every time-dependent operation
//! takes the current instant as an argument, so each operation is a pure
//! state transition that is specified and verified here.

pub mod analytics;
pub mod config;
pub mod dto;
pub mod profile;
pub mod text;
pub mod timer;
