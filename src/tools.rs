//! Connectivity checks.

pub mod connectivity;
