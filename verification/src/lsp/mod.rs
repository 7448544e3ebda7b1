//! The language server protocol, as far as hovers and definitions need it.

pub mod client;
pub mod params;
