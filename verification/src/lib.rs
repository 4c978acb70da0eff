//! Telemetry collection and aggregation for a desktop process manager.
//!
//! The library keeps bounded histories of sampled values, turns raw disk
//! counters into transfer rates, groups processes under their parents and
//! folds one round of readings into the state that a display reads. It does
//! not read the system itself: a round is handed what was read, and the time.
//!
//! Fractional quantities are fixed-point integers: a percentage or a rate is
//! stored in thousandths of its unit, and time is counted in milliseconds.
//!
//! - [`history`]: the sliding window that every plotted history is kept in.
//! - [`units`]: percentages, plot margins, storage sizes.
//! - [`text`]: decimal numbers and padding for fixed-width display.
//! - [`identity`]: finding an entity again by its stable key.
//! - [`cpu`], [`network`], [`disk`]: the state of each core, interface and disk.
//! - [`process`]: processes, their groups, and the order of the table.
//! - [`order`]: the order that shows the largest value first.
//! - [`collector`]: the whole state and the round that refreshes it.

pub mod collector;
pub mod cpu;
pub mod disk;
pub mod history;
pub mod identity;
pub mod network;
pub mod order;
pub mod process;
pub mod text;
pub mod units;
