//! Matching and dispatch core of a webhook runner: the rules a request is held against,
//! the matchers that decide, the queue between request handling and command execution,
//! and the bookkeeping of the worker that runs the commands.

pub mod config;
pub mod matchers;
pub mod actions;
pub mod text;
pub mod api;
pub mod db;
pub mod http;
pub mod serve;
