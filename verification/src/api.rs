//! The HTTP and WebSocket API's own decisions: the texts it answers with, where a map is
//! fetched from, and when a WebSocket session ends.

use vstd::prelude::*;

use crate::config::{append_decimal, decimal_chars};

verus! {

/// Where the dashboard fetches a car's map: `/api/cars/<car>/map.png?v=<version>`.
pub open spec fn map_url_text(car: Seq<char>, version: nat) -> Seq<char> {
    "/api/cars/"@ + car + "/map.png?v="@ + decimal_chars(version)
}

/// The map URL of a car at a snapshot version (the version defeats caches).
pub fn map_url(car: &str, version: u64) -> (url: String)
    ensures
        url@ == map_url_text(car@, version as nat),
{
    let mut url = String::new();
    url.append("/api/cars/");
    url.append(car);
    url.append("/map.png?v=");
    append_decimal(&mut url, version);
    assert(url@ =~= map_url_text(car@, version as nat));
    url
}

/// The 404 text for an unknown car: `no car <id>`.
pub fn no_car_message(id: &str) -> (m: String)
    ensures
        m@ == "no car "@ + id@,
{
    let mut m = String::new();
    m.append("no car ");
    m.append(id);
    assert(m@ =~= "no car "@ + id@);
    m
}

/// The 404 text for a car without a map yet: `no map yet for <id>`.
pub fn no_map_message(id: &str) -> (m: String)
    ensures
        m@ == "no map yet for "@ + id@,
{
    let mut m = String::new();
    m.append("no map yet for ");
    m.append(id);
    assert(m@ =~= "no map yet for "@ + id@);
    m
}

/// The 400 text for a body that is not a JSON command: `expected JSON command, got <n> bytes`.
pub fn bad_body_message(len: usize) -> (m: String)
    ensures
        m@ == "expected JSON command, got "@ + decimal_chars(len as nat) + " bytes"@,
{
    let mut m = String::new();
    m.append("expected JSON command, got ");
    append_decimal(&mut m, len as u64);
    m.append(" bytes");
    assert(m@ =~= "expected JSON command, got "@ + decimal_chars(len as nat) + " bytes"@);
    m
}

/// What a WebSocket session just observed.
#[derive(Debug, Clone, Copy, PartialEq, Eq, Structural)]
pub enum WsInput {
    /// A live event to forward.
    Event,
    /// The client fell behind and `n` events were skipped.
    Lagged(u64),
    /// The event stream ended.
    StreamClosed,
    /// The client sent a close frame, failed, or hung up.
    ClientGone,
    /// The client sent something else (ignored).
    ClientMessage,
    /// Sending to the client failed.
    SendFailed,
}

/// What the session does next.
#[derive(Debug, Clone, Copy, PartialEq, Eq, Structural)]
pub enum WsStep {
    /// Serialize and send the event, then keep going.
    Send,
    /// Keep going.
    Continue,
    /// End the session.
    Stop,
}

/// The session's decision for one observation: forward events, shrug off lag and client
/// chatter, end on a closed stream, a departed client or a failed send.
pub fn ws_next(input: WsInput) -> (step: WsStep)
    ensures
        step == match input {
            WsInput::Event => WsStep::Send,
            WsInput::Lagged(_) => WsStep::Continue,
            WsInput::ClientMessage => WsStep::Continue,
            _ => WsStep::Stop,
        },
{
    match input {
        WsInput::Event => WsStep::Send,
        WsInput::Lagged(_) => WsStep::Continue,
        WsInput::ClientMessage => WsStep::Continue,
        WsInput::StreamClosed => WsStep::Stop,
        WsInput::ClientGone => WsStep::Stop,
        WsInput::SendFailed => WsStep::Stop,
    }
}

} // verus!
