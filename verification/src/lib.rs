//! Building blocks for the control of power electronic converters: the
//! integer and logic parts of the control library, with their contracts.

pub mod angle;
pub mod edge_detector;
pub mod export;
pub mod frames;
pub mod limit;
pub mod off_delay;
pub mod on_delay;
pub mod on_off_delay;
pub mod cli;
