//! Conversions behind a developer's toolbox: numerals, IPv4 addresses,
//! file permissions, colours, timestamps and arithmetic expressions.

pub mod components;
pub mod numeral;
pub mod text;
pub mod theme;
