//! A status line for tmux: the load averages in the color of their tier, the
//! machine's identity, a weekday label and the time of day, refreshed on whole
//! seconds for as long as tmux takes the updates.
//!
//! - `loadavg` splits the load-average source into its fields;
//! - `decimal` and `percent` turn the first field into a percentage of the CPUs;
//! - `tier` picks the color of a percentage;
//! - `clock` and `weekday` give the day's label and the time of a clock reading;
//! - `identity` joins hostname and address;
//! - `render` sets all of it into the status markup;
//! - `schedule` computes the sleep to the next interval boundary;
//! - `driver` decides, update by update, whether the loop goes on;
//! - `cpu` counts the CPUs, and `text` holds what the others share.

pub mod clock;
pub mod cpu;
pub mod decimal;
pub mod driver;
pub mod identity;
pub mod loadavg;
pub mod percent;
pub mod render;
pub mod schedule;
pub mod text;
pub mod tier;
pub mod weekday;
