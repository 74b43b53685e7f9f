//! A terminal system monitor's core: text formatting of sizes and rates, the
//! dashboard geometry, the process filter and sorter, bounded sample
//! histories, counter bookkeeping and the input state machine.

pub mod components;
pub mod dashboard;
pub mod engine;
pub mod filter;
pub mod monitor;
pub mod sidebar;
pub mod telemetry;
pub mod text;
