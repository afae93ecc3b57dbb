//! Widgets that hold panels.

pub mod tab;
