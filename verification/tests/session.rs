use olivaw_hub::pipeline::{replay_gap_ms, ScanRates};
use olivaw_hub::session::{frame_record, split_records, Recorder};

fn session(payloads: &[&[u8]]) -> Vec<u8> {
    let mut out = Vec::new();
    for p in payloads {
        out.extend(frame_record(p).unwrap());
    }
    out
}

#[test]
fn records_are_length_prefixed_little_endian() {
    assert_eq!(frame_record(b"abc").unwrap(), vec![3, 0, 0, 0, b'a', b'b', b'c']);
    assert_eq!(frame_record(b"").unwrap(), vec![0, 0, 0, 0]);
    let long = vec![7u8; 300];
    let framed = frame_record(&long).unwrap();
    assert_eq!(&framed[..4], &[44, 1, 0, 0]);
    assert_eq!(framed.len(), 304);
}

#[test]
fn round_trips_through_bytes() {
    let payloads: [&[u8]; 3] = [b"status", b"", b"telemetry json"];
    let bytes = session(&payloads);
    let r = split_records(&bytes);
    assert_eq!(r.payloads.len(), 3);
    assert_eq!(r.payloads[0], b"status");
    assert_eq!(r.payloads[1], b"");
    assert_eq!(r.payloads[2], b"telemetry json");
    assert_eq!(r.truncated_at, None);
}

#[test]
fn a_cut_recording_keeps_its_complete_records() {
    let bytes = session(&[b"one", b"two", b"three"]);
    // Cut inside the last payload.
    let r = split_records(&bytes[..bytes.len() - 2]);
    assert_eq!(r.payloads, vec![b"one".to_vec(), b"two".to_vec()]);
    assert_eq!(r.truncated_at, Some(18));
    // Cut inside the last header: fewer than four bytes are ignored.
    let r = split_records(&bytes[..16]);
    assert_eq!(r.payloads, vec![b"one".to_vec(), b"two".to_vec()]);
    assert_eq!(r.truncated_at, None);
    // A header announcing more than the file holds.
    let r = split_records(&[255, 255, 255, 255, 1]);
    assert!(r.payloads.is_empty());
    assert_eq!(r.truncated_at, Some(4));
    assert!(split_records(&[]).payloads.is_empty());
}

#[test]
fn recorder_flushes_every_hundredth_record() {
    let mut rec = Recorder::new();
    assert_eq!(rec.records(), 0);
    assert_eq!(rec.frame(b"xy").unwrap(), vec![2, 0, 0, 0, b'x', b'y']);
    let mut flushes = Vec::new();
    for _ in 0..250 {
        if rec.written() {
            flushes.push(rec.records());
        }
    }
    assert_eq!(flushes, vec![100, 200]);
    assert_eq!(rec.records(), 250);
}

#[test]
fn scan_rates_count_per_window() {
    let mut rates: ScanRates<u32> = ScanRates::new();
    rates.count_scan("a", 10);
    rates.count_scan("a", 11);
    rates.count_scan("b", 12);
    assert_eq!(rates.in_window("a"), 2);
    assert_eq!(rates.in_window("b"), 1);
    assert_eq!(rates.in_window("c"), 0);
    let closed = rates.tick(20);
    assert_eq!(closed.len(), 2);
    assert_eq!((closed[0].car.as_str(), closed[0].window_start, closed[0].scans_in_window), ("a", 10, 2));
    assert_eq!((closed[1].car.as_str(), closed[1].window_start, closed[1].scans_in_window), ("b", 12, 1));
    assert_eq!(rates.in_window("a"), 0);
    rates.count_scan("b", 25);
    let closed = rates.tick(30);
    assert_eq!((closed[1].window_start, closed[1].scans_in_window), (20, 1));
}

#[test]
fn replay_waits_only_when_time_moves_forward() {
    assert_eq!(replay_gap_ms(None, 5), None);
    assert_eq!(replay_gap_ms(Some(5), 5), None);
    assert_eq!(replay_gap_ms(Some(9), 5), None);
    assert_eq!(replay_gap_ms(Some(1000), 1250), Some(250));
}
