//! The heartbeat supervisor's decisions: what a ping looks like, which
//! frames answer it, how long to wait for one, and when to abandon a wait.
//! The heartbeat is advisory only — nothing here terminates a connection.

use vstd::prelude::*;
use crate::message::{Message, MessageView};

verus! {

/// The well-known path the ping is addressed to.
pub const HEARTBEAT_PING_PATH: &'static str = ".broker/app";

/// The zero-argument "ping" probe, correlated by `request_id`.
pub fn ping_request(request_id: i64) -> (r: Message)
    ensures
        r@ == (MessageView {
            request_id: Some(request_id as int),
            path: Some(HEARTBEAT_PING_PATH@),
            method: Some("ping"@),
            params: None,
            result: None,
            error: None,
        }),
        r@.is_request(),
{
    Message::create_request(request_id, HEARTBEAT_PING_PATH, "ping", None)
}

/// Whether `frame` answers `ping`: exactly when it is a response carrying
/// the ping's request id.
pub fn ping_answered(ping: &Message, frame: &Message) -> (r: bool)
    ensures
        r == (frame@.is_response() && frame@.request_id == ping@.request_id),
{
    if !frame.is_response() {
        return false;
    }
    match (ping.request_id(), frame.request_id()) {
        (Some(a), Some(b)) => a == b,
        (None, None) => true,
        _ => false,
    }
}

/// How long one receive may block while waiting for the ping's answer:
/// twice the heartbeat period.
pub fn ping_receive_timeout_ms(interval_ms: u64) -> (r: u64)
    requires
        interval_ms <= u64::MAX / 2,
    ensures
        r == 2 * interval_ms,
{
    2 * interval_ms
}

/// Whether the wait for an answer is abandoned: exactly when more than one
/// heartbeat period has elapsed without a match. Abandoning is logged only;
/// the next ping is still scheduled.
pub fn ping_wait_abandoned(elapsed_ms: u64, interval_ms: u64) -> (r: bool)
    ensures
        r == (elapsed_ms > interval_ms),
{
    elapsed_ms > interval_ms
}

} // verus!
