//! A lightweight process supervisor library.
//!
//! The crate tracks a set of declared commands ("managed processes"),
//! reconciles each one's declared intent against the operating system's
//! process table, and drives a supervised restart loop with exponential
//! backoff and tagged, timestamped log lines.
//!
//! All decision logic is verified; the operating system is reached only
//! through a small set of trusted probe calls built on `sysinfo`.

pub mod state;
pub mod supervise;
pub mod system;
