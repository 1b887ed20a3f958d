//! Events entering the hub, whatever their source (MQTT, replay, simulator, serial lidar).

use vstd::prelude::*;
use vstd::utf8::{decode_utf8, valid_utf8};

use crate::clock::now_ms;

verus! {

/// The channel of a car topic `olivaw/<car>/<channel>`.
#[derive(Debug, Clone, Copy, PartialEq, Eq, Structural)]
pub enum Channel {
    /// `online` / `offline` (retained + last will).
    Status,
    /// JSON telemetry.
    Telemetry,
    /// One lidar rotation, postcard-encoded.
    Scan,
    /// Commands to the car (the hub's own publications).
    Cmd,
}

/// Decoded payloads: `T` is the telemetry sample, `S` the lidar rotation.
#[derive(Debug, Clone)]
pub enum EventKind<T, S> {
    /// `online` / `offline` (retained + last will).
    Status(String),
    /// JSON telemetry.
    Telemetry(T),
    /// One lidar rotation.
    Scan(S),
}

/// One thing a car said.
#[derive(Debug, Clone)]
pub struct CarEvent<T, S> {
    /// Car id from the topic.
    pub car: String,
    /// Wall-clock milliseconds since the Unix epoch when the hub saw it.
    pub at_ms: u64,
    /// Payload.
    pub kind: EventKind<T, S>,
}

/// The text `String::from_utf8_lossy` makes of `bytes`: invalid sequences become U+FFFD.
pub uninterp spec fn utf8_lossy(bytes: Seq<u8>) -> Seq<char>;

/// `String::from_utf8_lossy(bytes).into_owned()`. Its result is named by `utf8_lossy`; when the
/// bytes are valid UTF-8 it is exactly their decoding, as the standard documentation states.
/// How invalid sequences are replaced is not spelled out.
#[verifier::external_body]
fn lossy_text(bytes: &[u8]) -> (s: String)
    ensures
        s@ == utf8_lossy(bytes@),
        valid_utf8(bytes@) ==> s@ == decode_utf8(bytes@),
{
    String::from_utf8_lossy(bytes).into_owned()
}

impl<T, S> CarEvent<T, S> {
    /// Stamps `kind` with the current time.
    pub fn now(car: String, kind: EventKind<T, S>) -> (e: Self)
        ensures
            e.car == car,
            e.kind == kind,
    {
        CarEvent { car, at_ms: now_ms(), kind }
    }

    /// Decodes the payload of a message published on `olivaw/<car>/<channel>`.
    /// A status payload is read as text; telemetry and scan payloads go through the given
    /// parsers (JSON and postcard), and an undecodable payload gives `None`; the command
    /// channel, which carries the hub's own publications, gives `None`.
    pub fn decode<PT, PS>(
        car: &str,
        channel: Channel,
        payload: &[u8],
        parse_telemetry: PT,
        parse_scan: PS,
    ) -> (r: Option<Self>) where PT: FnOnce(&[u8]) -> Option<T>, PS: FnOnce(&[u8]) -> Option<S>
        requires
            channel == Channel::Telemetry ==> call_requires(parse_telemetry, (payload,)),
            channel == Channel::Scan ==> call_requires(parse_scan, (payload,)),
        ensures
            r matches Some(e) ==> e.car@ == car@,
            channel == Channel::Status ==> (r matches Some(e) && e.kind matches EventKind::Status(
                s,
            ) && s@ == utf8_lossy(payload@)),
            channel == Channel::Status && valid_utf8(payload@) ==> (r matches Some(e)
                && e.kind matches EventKind::Status(s) && s@ == decode_utf8(payload@)),
            channel == Channel::Telemetry ==> match r {
                Some(e) => e.kind matches EventKind::Telemetry(t) && call_ensures(
                    parse_telemetry,
                    (payload,),
                    Some(t),
                ),
                None => call_ensures(parse_telemetry, (payload,), None),
            },
            channel == Channel::Scan ==> match r {
                Some(e) => e.kind matches EventKind::Scan(f) && call_ensures(
                    parse_scan,
                    (payload,),
                    Some(f),
                ),
                None => call_ensures(parse_scan, (payload,), None),
            },
            channel == Channel::Cmd ==> r is None,
    {
        let kind = match channel {
            Channel::Status => EventKind::Status(lossy_text(payload)),
            Channel::Telemetry => match parse_telemetry(payload) {
                Some(t) => EventKind::Telemetry(t),
                None => return None,
            },
            Channel::Scan => match parse_scan(payload) {
                Some(f) => EventKind::Scan(f),
                None => return None,
            },
            Channel::Cmd => return None,
        };
        Some(Self::now(car.to_owned(), kind))
    }
}

/// What one poll of the MQTT event loop gave.
#[derive(Debug, Clone, Copy, PartialEq, Eq, Structural)]
pub enum Polled {
    /// The broker accepted the connection (after a reconnect too).
    ConnAck,
    /// A message arrived.
    Publish,
    /// Any other packet.
    Other,
    /// The connection failed.
    Failed,
}

/// What the ingest loop does after a poll.
#[derive(Debug, Clone, Copy, PartialEq, Eq, Structural)]
pub enum IngestStep {
    /// Wait this many milliseconds and poll again.
    Retry { after_ms: u64 },
    /// Decode (for a message) and forward, then subscribe if `subscribe`.
    Handle { decode: bool, subscribe: bool },
}

/// The ingest loop's subscription state: a fresh connection has no subscription.
#[derive(Debug, Clone, Copy, PartialEq, Eq, Structural)]
pub struct Subscriber {
    /// Whether `olivaw/+/+` is subscribed on the current connection.
    pub subscribed: bool,
}

impl Subscriber {
    /// Before the first connection.
    pub fn new() -> (s: Subscriber)
        ensures
            !s.subscribed,
    {
        Subscriber { subscribed: false }
    }

    /// The decision after a poll: a failed connection is retried after three seconds without
    /// subscribing; a connection acknowledgement forgets the subscription; a message is
    /// decoded; then a missing subscription is requested.
    pub fn after_poll(&mut self, polled: Polled) -> (step: IngestStep)
        ensures
            polled == Polled::Failed ==> step == (IngestStep::Retry { after_ms: 3000 }) && *final(self) == *old(self),
            polled == Polled::ConnAck ==> !final(self).subscribed,
            polled != Polled::ConnAck && polled != Polled::Failed ==> *final(self) == *old(self),
            polled != Polled::Failed ==> step == (IngestStep::Handle {
                decode: polled == Polled::Publish,
                subscribe: !final(self).subscribed,
            }),
    {
        match polled {
            Polled::Failed => IngestStep::Retry { after_ms: 3000 },
            Polled::ConnAck => {
                self.subscribed = false;
                IngestStep::Handle { decode: false, subscribe: true }
            },
            Polled::Publish => IngestStep::Handle { decode: true, subscribe: !self.subscribed },
            Polled::Other => IngestStep::Handle { decode: false, subscribe: !self.subscribed },
        }
    }

    /// The outcome of a subscription request.
    pub fn subscribe_result(&mut self, ok: bool)
        ensures
            final(self).subscribed == (old(self).subscribed || ok),
    {
        if ok {
            self.subscribed = true;
        }
    }
}

/// Whether a lidar plugged into the hub should publish telemetry now: on the first rotation,
/// then once at least a second has passed since the last sample (`ms_since_last` is the time
/// since it in whole milliseconds).
pub fn telemetry_due(ms_since_last: Option<u128>) -> (due: bool)
    ensures
        due == match ms_since_last {
            None => true,
            Some(ms) => ms >= 1000,
        },
{
    match ms_since_last {
        None => true,
        Some(ms) => ms >= 1000,
    }
}

} // verus!
