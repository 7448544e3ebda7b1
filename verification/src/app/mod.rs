//! What the commands decide and compute.

pub mod locate;
pub mod neovim;
pub mod query;
pub mod reference;
pub mod requests;
pub mod resolve;
pub mod session;
