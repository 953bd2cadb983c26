//! The widgets of the toolbox, each a small state machine over its fields.

pub mod chmodcalculator;
pub mod colorhelper;
pub mod ipcalculator;
pub mod numcalculator;
pub mod numconverter;
pub mod timestampconverter;
