//! The administration panel.

pub mod admin;
