//! The endpoint that takes webhook requests in.

pub mod webhook;
