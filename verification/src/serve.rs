//! Where the servers listen.

use vstd::prelude::*;

verus! {

/// The port of the webhook server where none is given.
pub const DEFAULT_WEBHOOK_PORT: &'static str = "8000";

/// The port of the administration server where none is given.
pub const DEFAULT_ADMIN_PORT: &'static str = "8010";

/// The host that the servers listen on where none is given.
pub const DEFAULT_HOST: &'static str = "127.0.0.1";

/// The path of the webhook endpoint.
pub const WEBHOOK_API_PATH: &'static str = "/webhook";

/// The number of batches that the dispatch queue holds before a request has to wait.
pub const DISPATCH_QUEUE_CAPACITY: usize = 8;

/// The number that `str::parse::<u16>` reads from `text`; `None` where it rejects it.
pub uninterp spec fn parsed_u16(text: Seq<char>) -> Option<u16>;

/// Calls `str::parse::<u16>`. Trusted: the outcome depends on the text alone.
#[verifier::external_body]
fn parse_u16(text: &str) -> (number: Option<u16>)
    ensures
        number == parsed_u16(text@),
{
    text.parse::<u16>().ok()
}

/// The host to listen on: the one that is given, or the default.
pub fn listen_host(host: Option<&str>) -> (chosen: String)
    ensures
        chosen@ == match host {
            Some(host) => host@,
            None => DEFAULT_HOST@,
        },
{
    match host {
        Some(host) => host.to_owned(),
        None => DEFAULT_HOST.to_owned(),
    }
}

/// The port to listen on: the one that is given, or the default, read as a number.
/// `None` where that text is no port number.
pub fn listen_port(port: Option<&str>, default_port: &str) -> (chosen: Option<u16>)
    ensures
        chosen == parsed_u16(
            match port {
                Some(port) => port@,
                None => default_port@,
            },
        ),
{
    match port {
        Some(port) => parse_u16(port),
        None => parse_u16(default_port),
    }
}

} // verus!
