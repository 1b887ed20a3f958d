use olivaw_hub::api::{bad_body_message, map_url, no_car_message, no_map_message, ws_next, WsInput, WsStep};
use olivaw_hub::command::{encode, CmdReply, Command, CommandPayload, Control};
use olivaw_hub::decimal::{push_decimal, push_signed_decimal};
use olivaw_hub::ingest::{telemetry_due, CarEvent, Channel, EventKind, IngestStep, Polled, Subscriber};

#[test]
fn commands_encode_to_the_car_protocol() {
    // The control frames' bytes come from the protocol crate, which app/ links; the library
    // decides which control (with its argument) or which text line a command becomes.
    assert_eq!(encode(&Command::EStop), CommandPayload::Control(Control::EStop));
    assert_eq!(
        encode(&Command::Drive {
            left: 500,
            right: -250
        }),
        CommandPayload::Text(b"500,-250\n".to_vec())
    );
    assert_eq!(
        encode(&Command::MaxDuty { permille: 550 }),
        CommandPayload::Control(Control::SetMaxDuty(550))
    );
    assert_eq!(encode(&Command::Lidar { on: true }), CommandPayload::Control(Control::LidarOn));
}

#[test]
fn every_command_maps_to_its_opcode() {
    assert_eq!(encode(&Command::Clear), CommandPayload::Control(Control::Clear));
    assert_eq!(encode(&Command::Lidar { on: false }), CommandPayload::Control(Control::LidarOff));
    assert_eq!(
        encode(&Command::Drive { left: -1000, right: 0 }),
        CommandPayload::Text(b"-1000,0\n".to_vec())
    );
    assert_eq!(
        encode(&Command::Drive { left: i16::MIN, right: i16::MAX }),
        CommandPayload::Text(b"-32768,32767\n".to_vec())
    );
    assert_eq!(CmdReply::published(9).bytes, 9);
}

#[test]
fn decimal_text_matches_display() {
    for n in [0u64, 7, 10, 99, 100, 12345, u64::MAX] {
        let mut out = Vec::new();
        push_decimal(&mut out, n);
        assert_eq!(out, n.to_string().into_bytes());
    }
    for n in [0i64, -1, 42, -42, i64::MIN, i64::MAX] {
        let mut out = b"x".to_vec();
        push_signed_decimal(&mut out, n);
        assert_eq!(out, format!("x{n}").into_bytes());
    }
}

#[test]
fn api_texts() {
    assert_eq!(map_url("car-01", 3), "/api/cars/car-01/map.png?v=3");
    assert_eq!(map_url("sim-01", 0), "/api/cars/sim-01/map.png?v=0");
    assert_eq!(no_car_message("x"), "no car x");
    assert_eq!(no_map_message("car-01"), "no map yet for car-01");
    assert_eq!(bad_body_message(17), "expected JSON command, got 17 bytes");
}

#[test]
fn websocket_sessions_end_only_when_someone_leaves() {
    assert_eq!(ws_next(WsInput::Event), WsStep::Send);
    assert_eq!(ws_next(WsInput::Lagged(12)), WsStep::Continue);
    assert_eq!(ws_next(WsInput::ClientMessage), WsStep::Continue);
    assert_eq!(ws_next(WsInput::StreamClosed), WsStep::Stop);
    assert_eq!(ws_next(WsInput::ClientGone), WsStep::Stop);
    assert_eq!(ws_next(WsInput::SendFailed), WsStep::Stop);
}

fn no_telemetry(_: &[u8]) -> Option<u16> {
    None
}

fn no_scan(_: &[u8]) -> Option<u32> {
    None
}

#[test]
fn decodes_status_and_ignores_cmd() {
    // Splitting a topic into car and channel (and refusing a foreign topic) is the protocol
    // crate's, done in app/ before the library sees the message.
    let e = CarEvent::<u16, u32>::decode("car-01", Channel::Status, b"online", no_telemetry, no_scan)
        .unwrap();
    assert_eq!(e.car, "car-01");
    assert!(matches!(e.kind, EventKind::Status(ref s) if s == "online"));
    assert!(CarEvent::<u16, u32>::decode("car-01", Channel::Cmd, b"\x01", no_telemetry, no_scan).is_none());
}

#[test]
fn status_bytes_that_are_not_utf8_are_replaced() {
    let e = CarEvent::<u16, u32>::decode("c", Channel::Status, b"on\xffline", no_telemetry, no_scan)
        .unwrap();
    assert!(matches!(e.kind, EventKind::Status(ref s) if s == "on\u{fffd}line"));
}

#[test]
fn telemetry_and_scans_go_through_their_parsers() {
    let parse_t = |p: &[u8]| if p == b"{}" { Some(11_800u16) } else { None };
    let parse_s = |p: &[u8]| if p.len() == 3 { Some(3u32) } else { None };
    let e = CarEvent::decode("car-01", Channel::Telemetry, b"{}", parse_t, parse_s).unwrap();
    assert!(matches!(e.kind, EventKind::Telemetry(11_800)));
    assert!(e.at_ms > 1_600_000_000_000);
    let e = CarEvent::decode("car-01", Channel::Scan, b"abc", parse_t, parse_s).unwrap();
    assert!(matches!(e.kind, EventKind::Scan(3)));
    assert!(CarEvent::decode("car-01", Channel::Telemetry, b"{", parse_t, parse_s).is_none());
    assert!(CarEvent::decode("car-01", Channel::Scan, b"ab", parse_t, parse_s).is_none());
}

#[test]
fn ingest_resubscribes_after_every_connection() {
    let mut s = Subscriber::new();
    assert_eq!(s.after_poll(Polled::ConnAck), IngestStep::Handle { decode: false, subscribe: true });
    s.subscribe_result(true);
    assert!(s.subscribed);
    assert_eq!(s.after_poll(Polled::Publish), IngestStep::Handle { decode: true, subscribe: false });
    assert_eq!(s.after_poll(Polled::Other), IngestStep::Handle { decode: false, subscribe: false });
    assert_eq!(s.after_poll(Polled::Failed), IngestStep::Retry { after_ms: 3000 });
    assert!(s.subscribed);
    assert_eq!(s.after_poll(Polled::ConnAck), IngestStep::Handle { decode: false, subscribe: true });
    assert!(!s.subscribed);
    s.subscribe_result(false);
    assert_eq!(s.after_poll(Polled::Publish), IngestStep::Handle { decode: true, subscribe: true });
}

#[test]
fn lidar_telemetry_once_a_second() {
    assert!(telemetry_due(None));
    assert!(!telemetry_due(Some(999)));
    assert!(telemetry_due(Some(1000)));
    assert!(telemetry_due(Some(5000)));
}
