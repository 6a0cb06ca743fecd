//! The per-connection request lifecycle, as a state machine: a connection is
//! accepted, read once, decoded, executed, answered, and closed — one request
//! per connection — and any failure before a success response turns into a
//! best-effort error frame.
//!
//! The machine decides; whoever runs the connection performs the returned
//! action and feeds the outcome back as the next event.

use vstd::prelude::*;

verus! {

/// The lifecycle phases of one connection.
#[derive(Clone, Copy, Debug, PartialEq, Eq, Structural)]
pub enum ConnState {
    /// Freshly accepted stream, no buffer yet.
    Accepted,
    /// Waiting for the one read into the bounded receive buffer.
    Reading,
    /// Running the frame decoder and the version dispatcher.
    Decoding,
    /// Running the decoded instruction; a success response is written inline.
    Executing,
    /// The success response has been written; nothing is left but to close.
    Responding,
    /// A failure happened before a success response; the error frame is being
    /// delivered best-effort.
    Failing,
    /// The handler is done; the connection is dropped.
    Closed,
}

/// What the outside work reports back to the handler.
#[derive(Clone, Copy, Debug, PartialEq, Eq, Structural)]
pub enum ConnEvent {
    /// The receive buffer is allocated.
    BufferReady,
    /// The read returned at least one byte.
    ReadSome,
    /// The read returned zero bytes: the peer closed without sending.
    ReadEmpty,
    /// The read itself failed.
    ReadFailed,
    /// The buffer decoded to an instruction.
    DecodeOk,
    /// The decode failed.
    DecodeFailed,
    /// The instruction ran and its response was written.
    ExecOk,
    /// The instruction failed, or writing its response failed.
    ExecFailed,
    /// The success response is complete.
    ResponseDone,
    /// The error frame was delivered.
    ErrorReported,
    /// Delivery of the error frame was abandoned.
    ErrorAbandoned,
}

/// What the handler asks its caller to do next.
#[derive(Clone, Copy, Debug, PartialEq, Eq, Structural)]
pub enum ConnAction {
    /// Read once into the bounded receive buffer.
    Read,
    /// Decode the bytes that were read.
    Decode,
    /// Execute the decoded instruction, writing its response inline.
    Execute,
    /// Finish the already-written success response.
    Respond,
    /// Send the error frame, with the bounded-retry schedule.
    SendErrorFrame,
    /// Drop the connection.
    Drop,
}

/// The transition table: what follows `s` on event `e`, or nothing when the
/// event cannot arise in that phase. A peer that closes without sending is
/// dropped silently; every other failure before a success response moves to
/// `Failing`, whose outcome either way ends in `Closed`.
pub open spec fn spec_conn_step(s: ConnState, e: ConnEvent) -> Option<(ConnState, ConnAction)> {
    match (s, e) {
        (ConnState::Accepted, ConnEvent::BufferReady) => Some(
            (ConnState::Reading, ConnAction::Read),
        ),
        (ConnState::Reading, ConnEvent::ReadSome) => Some(
            (ConnState::Decoding, ConnAction::Decode),
        ),
        (ConnState::Reading, ConnEvent::ReadEmpty) => Some((ConnState::Closed, ConnAction::Drop)),
        (ConnState::Reading, ConnEvent::ReadFailed) => Some(
            (ConnState::Failing, ConnAction::SendErrorFrame),
        ),
        (ConnState::Decoding, ConnEvent::DecodeOk) => Some(
            (ConnState::Executing, ConnAction::Execute),
        ),
        (ConnState::Decoding, ConnEvent::DecodeFailed) => Some(
            (ConnState::Failing, ConnAction::SendErrorFrame),
        ),
        (ConnState::Executing, ConnEvent::ExecOk) => Some(
            (ConnState::Responding, ConnAction::Respond),
        ),
        (ConnState::Executing, ConnEvent::ExecFailed) => Some(
            (ConnState::Failing, ConnAction::SendErrorFrame),
        ),
        (ConnState::Responding, ConnEvent::ResponseDone) => Some(
            (ConnState::Closed, ConnAction::Drop),
        ),
        (ConnState::Failing, ConnEvent::ErrorReported) => Some(
            (ConnState::Closed, ConnAction::Drop),
        ),
        (ConnState::Failing, ConnEvent::ErrorAbandoned) => Some(
            (ConnState::Closed, ConnAction::Drop),
        ),
        _ => None,
    }
}

/// Advances the connection by one step.
pub fn conn_step(s: ConnState, e: ConnEvent) -> (r: Option<(ConnState, ConnAction)>)
    ensures
        r == spec_conn_step(s, e),
{
    match (s, e) {
        (ConnState::Accepted, ConnEvent::BufferReady) => Some(
            (ConnState::Reading, ConnAction::Read),
        ),
        (ConnState::Reading, ConnEvent::ReadSome) => Some(
            (ConnState::Decoding, ConnAction::Decode),
        ),
        (ConnState::Reading, ConnEvent::ReadEmpty) => Some((ConnState::Closed, ConnAction::Drop)),
        (ConnState::Reading, ConnEvent::ReadFailed) => Some(
            (ConnState::Failing, ConnAction::SendErrorFrame),
        ),
        (ConnState::Decoding, ConnEvent::DecodeOk) => Some(
            (ConnState::Executing, ConnAction::Execute),
        ),
        (ConnState::Decoding, ConnEvent::DecodeFailed) => Some(
            (ConnState::Failing, ConnAction::SendErrorFrame),
        ),
        (ConnState::Executing, ConnEvent::ExecOk) => Some(
            (ConnState::Responding, ConnAction::Respond),
        ),
        (ConnState::Executing, ConnEvent::ExecFailed) => Some(
            (ConnState::Failing, ConnAction::SendErrorFrame),
        ),
        (ConnState::Responding, ConnEvent::ResponseDone) => Some(
            (ConnState::Closed, ConnAction::Drop),
        ),
        (ConnState::Failing, ConnEvent::ErrorReported) => Some(
            (ConnState::Closed, ConnAction::Drop),
        ),
        (ConnState::Failing, ConnEvent::ErrorAbandoned) => Some(
            (ConnState::Closed, ConnAction::Drop),
        ),
        _ => None,
    }
}

/// Law: `Closed` is terminal — no event moves a closed connection anywhere.
pub proof fn lemma_closed_terminal(e: ConnEvent)
    ensures
        spec_conn_step(ConnState::Closed, e) is None,
{
}

} // verus!
