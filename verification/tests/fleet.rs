use olivaw_hub::clock::{elapsed_ms, epoch_millis_u64, now_ms, saturate_millis_u32};
use olivaw_hub::config::{broker_config, MqttConfig, SlamTuning};
use olivaw_hub::ingest::{CarEvent, EventKind};
use olivaw_hub::sim::{FrameClock, Lcg};
use olivaw_hub::state::{id_less, push_capped, CarSnapshot, Fleet, Reaction};
use olivaw_hub::viz::start;

type TestFleet = Fleet<u16, (i32, i32), u8, u64, u32>;

fn event(car: &str, at_ms: u64, kind: EventKind<u16, u32>) -> CarEvent<u16, u32> {
    CarEvent { car: car.to_string(), at_ms, kind }
}

#[test]
fn status_is_broadcast_only_when_it_changes() {
    let mut f = TestFleet::new();
    let r = f.on_event(event("c", 1, EventKind::Status("online".into())), 0);
    assert!(matches!(r, Reaction::StatusChanged { ref car, ref status } if car == "c" && status == "online"));
    let r = f.on_event(event("c", 2, EventKind::Status("online".into())), 0);
    assert!(matches!(r, Reaction::Quiet));
    let r = f.on_event(event("d", 3, EventKind::Status("unknown".into())), 0);
    assert!(matches!(r, Reaction::Quiet));
    let c = f.get("c").unwrap();
    assert_eq!((c.status.as_str(), c.last_seen_ms), ("online", 2));
    assert_eq!(f.len(), 2);
}

#[test]
fn telemetry_and_scans_update_the_snapshot() {
    let mut f = TestFleet::new();
    let r = f.on_event(event("c", 5, EventKind::Telemetry(11_800)), 0);
    assert!(matches!(r, Reaction::Telemetry { ref car, telemetry: 11_800, at_ms: 5 } if car == "c"));
    let r = f.on_event(event("c", 6, EventKind::Scan(42)), 0);
    assert!(matches!(r, Reaction::Scan { frame: 42, .. }));
    f.on_event(event("c", 7, EventKind::Scan(43)), 0);
    assert_eq!(f.scans_total("c"), 2);
    assert_eq!(f.scans_total("nobody"), 0);
    let c = f.get("c").unwrap();
    assert_eq!((c.telemetry, c.last_seen_ms, c.status.as_str()), (Some(11_800), 7, "unknown"));
    assert_eq!(f.on_rate("c", 10, 0), 2);
    assert_eq!(f.get("c").unwrap().scan_hz, 10);
}

#[test]
fn trajectory_keeps_the_most_recent_positions() {
    let mut f = TestFleet::new();
    for i in 0..10 {
        f.on_tracked("c", i as u8, (i, -i), vec![(i, i)], 4, 0);
    }
    let c = f.get("c").unwrap();
    assert_eq!(c.trajectory, vec![(6, -6), (7, -7), (8, -8), (9, -9)]);
    assert_eq!(c.pose, Some(9));
    assert_eq!(c.scan, vec![(9, 9)]);
    f.on_map("c", 77, 0);
    assert_eq!(f.get("c").unwrap().map, Some(77));
    let mut v = vec![1, 2];
    push_capped(&mut v, 3, 0);
    assert!(v.is_empty());
    let mut v = vec![1, 2];
    push_capped(&mut v, 3, 5);
    assert_eq!(v, vec![1, 2, 3]);
}

#[test]
fn snapshots_are_listed_by_id() {
    let mut f = TestFleet::new();
    for id in ["sim-01", "car-02", "mac-lidar", "car-01", "car-010"] {
        f.on_event(event(id, 1, EventKind::Status("online".into())), 0);
    }
    let order = f.snapshot_order();
    let ids: Vec<&str> = order.iter().map(|&i| f.at(i).id.as_str()).collect();
    assert_eq!(ids, vec!["car-01", "car-010", "car-02", "mac-lidar", "sim-01"]);
    assert!(id_less("a", "ab"));
    assert!(!id_less("ab", "a"));
    assert!(!id_less("a", "a"));
    assert!(id_less("Z", "a"));
    assert!(id_less("é", "ê"));
    let fresh: CarSnapshot<u16, (i32, i32), u8, u64, u32> = CarSnapshot::new("x", 0);
    assert_eq!(fresh.status, "unknown");
}

#[test]
fn configuration_defaults() {
    let m = MqttConfig::default();
    assert_eq!((m.host.as_str(), m.port, m.client_id.as_str()), ("127.0.0.1", 1883, "olivaw-hub"));
    assert_eq!(m.client_name("sub"), "olivaw-hub-sub");
    assert!(m.credentials().is_none());
    let with_login = MqttConfig { username: Some("u".into()), password: Some("p".into()), ..MqttConfig::default() };
    assert_eq!(with_login.credentials(), Some(("u".to_string(), "p".to_string())));
    let half = MqttConfig { username: Some("u".into()), ..MqttConfig::default() };
    assert!(half.credentials().is_none());
    let s = SlamTuning::default();
    assert_eq!((s.map_every_scans, s.ws_scan_points, s.trajectory_len), (10, 240, 4000));
}

#[test]
fn broker_configuration_text() {
    let text = broker_config("0.0.0.0:1883", "0.0.0.0:1884", 65_536);
    assert!(text.starts_with("\nid = 0\n\n[router]\n"));
    assert!(text.contains("[v5.1]\nname = \"v5\"\nlisten = \"0.0.0.0:1883\"\n"));
    assert!(text.contains("[v4.1]\nname = \"v4\"\nlisten = \"0.0.0.0:1884\"\n"));
    assert_eq!(text.matches("    max_payload_size = 65536\n").count(), 2);
    assert!(text.ends_with("    dynamic_filters = true\n"));
}

#[test]
fn clocks_saturate() {
    assert_eq!(epoch_millis_u64(None), 0);
    assert_eq!(epoch_millis_u64(Some(1234)), 1234);
    assert_eq!(epoch_millis_u64(Some(u128::MAX)), u64::MAX);
    assert_eq!(saturate_millis_u32(7), 7);
    assert_eq!(saturate_millis_u32(1 << 40), u32::MAX);
    assert!(now_ms() > 1_600_000_000_000);
    assert!(elapsed_ms(std::time::Instant::now()) < 60_000);
}

#[test]
fn simulator_noise_source_is_deterministic() {
    let mut g = Lcg::new(0x5EED);
    assert_eq!(g.next_bits(), 8_428_467_204_411_416);
    assert_eq!(g.state, 17_261_500_834_634_580_984);
    assert_eq!(g.next_bits(), 7_479_526_967_153_471);
}

#[test]
fn simulator_sends_telemetry_once_a_second() {
    let mut c = FrameClock::new();
    let mut due = Vec::new();
    for _ in 0..20 {
        let t = c.advance(100, 10);
        if t.telemetry_due {
            due.push((c.seq, t.uptime_s));
        }
    }
    assert_eq!(due, vec![(10, 1), (20, 2)]);
    assert_eq!(c.t_ms, 2000);
    let mut w = FrameClock { seq: u32::MAX, t_ms: u32::MAX - 50 };
    let t = w.advance(100, 7);
    assert_eq!((w.seq, w.t_ms), (0, 49));
    assert!(t.telemetry_due);
    assert_eq!(t.uptime_s, 0);
}

#[test]
fn no_viewer_in_this_build() {
    assert!(matches!(start(), Ok(None)));
}
