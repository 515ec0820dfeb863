//! Call correlation: an issued request waits for the response that carries
//! its own request id, under a deadline. Frames with other ids are simply
//! not claimed by the wait; a wait that sees no matching frame fails at its
//! configured timeout, naming the request id and the timeout.

use vstd::prelude::*;
use crate::message::{Message, MessageView};

verus! {

/// Default deadline of a call, in milliseconds.
pub const DEFAULT_RPC_CALL_TIMEOUT_MS: u64 = 5000;

/// Why a call failed.
#[derive(Debug, Copy, Clone, PartialEq, Eq, Structural)]
pub enum CallError {
    /// The message handed out was not a request carrying a request id.
    NotRequest,
    /// No response with the call's id arrived within the deadline.
    Timeout { request_id: i64, timeout_ms: u64 },
}

/// One outstanding call: its request id and its deadline.
#[derive(Debug, Copy, Clone, PartialEq, Eq, Structural)]
pub struct RpcCall {
    pub request_id: i64,
    pub timeout_ms: u64,
}

/// Whether a call's wait is over at `elapsed_ms`: exactly when the elapsed
/// time has reached the configured timeout.
pub open spec fn times_out(call: RpcCall, elapsed_ms: u64) -> bool {
    elapsed_ms >= call.timeout_ms
}

/// What the wait does with one inbound event.
#[derive(Debug)]
pub enum CallStep {
    /// The event does not concern this call: keep waiting.
    Pending,
    /// The frame carried the call's id: the call resolves to it.
    Resolved(Message),
    /// The deadline has passed: the call fails.
    TimedOut(CallError),
}

/// An event the wait observes: an inbound frame, or the clock having
/// advanced to `elapsed_ms` since the request was sent.
pub enum CallEvent {
    Frame(Message),
    Elapsed(u64),
}

impl RpcCall {
    /// Opens the wait for `request`, which must be a request-kind frame
    /// carrying a request id; anything else fails immediately.
    pub fn open(request: &Message, timeout_ms: u64) -> (r: Result<RpcCall, CallError>)
        ensures
            match r {
                Ok(c) => request@.is_request() && Some(c.request_id as int) == request@.request_id
                    && c.timeout_ms == timeout_ms,
                Err(e) => !request@.is_request() && e == CallError::NotRequest,
            },
    {
        if !request.is_request() {
            return Err(CallError::NotRequest);
        }
        match request.request_id() {
            Some(id) => Ok(RpcCall { request_id: id, timeout_ms }),
            None => Err(CallError::NotRequest),
        }
    }

    /// Whether this call claims `frame`: exactly when the frame carries the
    /// call's own request id.
    pub fn claims(&self, frame: &Message) -> (r: bool)
        ensures
            r == (frame@.request_id == Some(self.request_id as int)),
    {
        match frame.request_id() {
            Some(id) => id == self.request_id,
            None => false,
        }
    }

    /// One step of the wait. A frame resolves the call exactly when it
    /// carries the call's id; the clock times the call out exactly when the
    /// deadline is reached, with an error naming the id and the timeout.
    pub fn step(&self, event: CallEvent) -> (r: CallStep)
        ensures
            match event {
                CallEvent::Frame(f) => if f@.request_id == Some(self.request_id as int) {
                    r == CallStep::Resolved(f)
                } else {
                    r == CallStep::Pending
                },
                CallEvent::Elapsed(ms) => if times_out(*self, ms) {
                    r == CallStep::TimedOut(
                        CallError::Timeout {
                            request_id: self.request_id,
                            timeout_ms: self.timeout_ms,
                        },
                    )
                } else {
                    r == CallStep::Pending
                },
            },
    {
        match event {
            CallEvent::Frame(f) => {
                if self.claims(&f) {
                    CallStep::Resolved(f)
                } else {
                    CallStep::Pending
                }
            },
            CallEvent::Elapsed(ms) => {
                if ms >= self.timeout_ms {
                    CallStep::TimedOut(
                        CallError::Timeout {
                            request_id: self.request_id,
                            timeout_ms: self.timeout_ms,
                        },
                    )
                } else {
                    CallStep::Pending
                }
            },
        }
    }
}

/// The views of the messages in `s`, in order.
pub open spec fn message_views(s: Seq<Message>) -> Seq<MessageView> {
    Seq::new(s.len(), |i: int| s[i]@)
}

/// The first frame in `frames` carrying `id`: what the waiter for `id`
/// resolves to when it reads that sequence of inbound frames.
pub open spec fn first_claimed(id: int, frames: Seq<MessageView>) -> Option<MessageView>
    decreases frames.len(),
{
    if frames.len() == 0 {
        None
    } else if frames[0].request_id == Some(id) {
        Some(frames[0])
    } else {
        first_claimed(id, frames.drop_first())
    }
}

/// What a waiter resolves to carries the waiter's own request id.
pub proof fn lemma_claimed_has_own_id(id: int, frames: Seq<MessageView>)
    ensures
        first_claimed(id, frames) matches Some(m) ==> m.request_id == Some(id),
    decreases frames.len(),
{
    if frames.len() > 0 && frames[0].request_id != Some(id) {
        lemma_claimed_has_own_id(id, frames.drop_first());
    }
}

/// Frames with other ids are not claimed: inserting a frame that carries a
/// different id anywhere into the inbound sequence leaves what the waiter
/// resolves to unchanged, however the frames interleave.
pub proof fn lemma_unrelated_frame_ignored(
    id: int,
    frames: Seq<MessageView>,
    k: int,
    unrelated: MessageView,
)
    requires
        0 <= k <= frames.len(),
        unrelated.request_id != Some(id),
    ensures
        first_claimed(id, frames.insert(k, unrelated)) == first_claimed(id, frames),
    decreases frames.len(),
{
    let with = frames.insert(k, unrelated);
    if k == 0 {
        assert(with[0] == unrelated);
        assert(with.drop_first() =~= frames);
    } else {
        assert(with[0] == frames[0]);
        assert(with.drop_first() =~= frames.drop_first().insert(k - 1, unrelated));
        if frames[0].request_id != Some(id) {
            lemma_unrelated_frame_ignored(id, frames.drop_first(), k - 1, unrelated);
        }
    }
}

/// Waiters with distinct request ids resolve to distinct responses: each
/// call gets the response sharing its own id, whatever else arrives.
pub proof fn lemma_distinct_ids_distinct_responses(id1: int, id2: int, frames: Seq<MessageView>)
    requires
        id1 != id2,
    ensures
        ({
            let r1 = first_claimed(id1, frames);
            let r2 = first_claimed(id2, frames);
            (r1 is Some && r2 is Some) ==> r1->0 != r2->0
        }),
{
    lemma_claimed_has_own_id(id1, frames);
    lemma_claimed_has_own_id(id2, frames);
}

/// A call fails by timeout neither before nor after its deadline: below the
/// configured timeout the wait goes on, at or past it the call is timed
/// out.
pub proof fn lemma_timeout_exact(call: RpcCall, elapsed_before: u64, elapsed_at: u64)
    requires
        elapsed_before < call.timeout_ms,
        elapsed_at >= call.timeout_ms,
    ensures
        !times_out(call, elapsed_before),
        times_out(call, elapsed_at),
{
}

/// Scans buffered inbound frames for the first one this call claims.
pub fn find_claimed(call: &RpcCall, frames: &Vec<Message>) -> (r: Option<usize>)
    ensures
        match r {
            Some(i) => i < frames@.len() && frames@[i as int]@.request_id == Some(
                call.request_id as int,
            ) && first_claimed(call.request_id as int, message_views(frames@)) == Some(
                frames@[i as int]@,
            ) && forall|j: int|
                0 <= j < i ==> (#[trigger] frames@[j])@.request_id != Some(
                    call.request_id as int,
                ),
            None => first_claimed(call.request_id as int, message_views(frames@)) is None,
        },
{
    let ghost id = call.request_id as int;
    let ghost mv = message_views(frames@);
    let mut i: usize = 0;
    proof {
        assert(mv.skip(0) =~= mv);
    }
    while i < frames.len()
        invariant
            i <= frames@.len(),
            mv == message_views(frames@),
            mv.len() == frames@.len(),
            forall|j: int| 0 <= j < mv.len() ==> #[trigger] mv[j] == frames@[j]@,
            first_claimed(id, mv.skip(i as int)) == first_claimed(id, mv),
            id == call.request_id as int,
            forall|j: int| 0 <= j < i ==> (#[trigger] frames@[j])@.request_id != Some(id),
        decreases frames@.len() - i,
    {
        proof {
            assert(mv.skip(i as int)[0] == mv[i as int]);
            assert(mv.skip(i as int).drop_first() =~= mv.skip(i as int + 1));
        }
        if call.claims(&frames[i]) {
            return Some(i);
        }
        i = i + 1;
    }
    proof {
        assert(mv.skip(i as int) =~= Seq::empty());
    }
    None
}

} // verus!
