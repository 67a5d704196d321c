//! PerfDroid: the verified logic of an ADB-based Android performance collector.

pub mod adb;
pub mod aggregation;
pub mod constants;
pub mod device;
pub mod errors;
pub mod export;
pub mod gui;
pub mod names;
pub mod number;
pub mod profiler;
pub mod registry;
pub mod runtime;
pub mod session;
pub mod shell;
pub mod sort;
pub mod storage;
pub mod text;
pub mod types;
