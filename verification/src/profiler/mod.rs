//! The profilers: what each of them reads from the device and how it reads it.

pub mod cpu_clock;
pub mod cpu_usage;
pub mod fps;
pub mod power;
pub mod power_supply;
pub mod sampler;
pub mod temperature;
