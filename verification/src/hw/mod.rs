//! Board description.
pub mod pins;
