//! Actions on directories.

pub mod copy;
