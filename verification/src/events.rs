//! The events the client reports on its standard output for a controlling
//! process.

use crate::text::{chars_of, push_str, string_of};
use vstd::prelude::*;

verus! {

/// The client started listening.
pub const eventStarted: &'static str = "STARTED";

/// The client stopped.
pub const eventStopped: &'static str = "STOPPED";

/// A session is ready.
pub const eventReady: &'static str = "READY";

/// A WireGuard configuration arrived.
pub const eventConfig: &'static str = "CONFIG";

/// Periodic counters.
pub const eventStats: &'static str = "STATS";

/// An error.
pub const eventError: &'static str = "ERROR";

/// A captcha needs solving.
pub const eventCaptchaRequest: &'static str = "CAPTCHA_REQUEST";

/// A captcha was solved or given up.
pub const eventCaptchaDone: &'static str = "CAPTCHA_DONE";

/// The line an event is reported as: a marker, the event type and its JSON
/// payload, separated by `|`.
pub open spec fn event_line(t: Seq<char>, payload: Seq<char>) -> Seq<char> {
    "__WDTT_EVENT__|"@ + t + "|"@ + payload
}

/// The line an event is reported as.
pub fn eventLine(t: &str, payload: &str) -> (r: String)
    ensures
        r@ == event_line(t@, payload@),
{
    let mut v = chars_of("__WDTT_EVENT__|");
    push_str(&mut v, t);
    push_str(&mut v, "|");
    push_str(&mut v, payload);
    string_of(v.as_slice())
}

} // verus!
