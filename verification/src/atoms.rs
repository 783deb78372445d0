//! Atoms: the smallest host operations an action decomposes into.

pub mod command;
