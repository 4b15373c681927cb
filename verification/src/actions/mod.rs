//! What happens with a request once it is in: finding the rules it matches, queueing,
//! and running their commands.

pub mod executor;
pub mod matching_webhooks;
pub mod queue;
