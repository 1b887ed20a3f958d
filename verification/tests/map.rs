use olivaw_hub::map_png::{encode_png, gray8_fits, grid_rows_to_image, MapError, MapSnapshot};
use olivaw_hub::worker::{decimation_indices, decimation_stride, WorkerProgress, WorkerTuning};
use olivaw_hub::config::SlamTuning;

#[test]
fn image_rows_are_grid_rows_reversed() {
    // 3 wide, 2 high: grid row 0 (min y) becomes the bottom image row.
    let cells = [1u8, 2, 3, 4, 5, 6];
    assert_eq!(grid_rows_to_image(&cells, 3, 2), vec![4, 5, 6, 1, 2, 3]);
    assert_eq!(grid_rows_to_image(&[], 0, 5), Vec::<u8>::new());
    let flipped = grid_rows_to_image(&grid_rows_to_image(&cells, 3, 2), 3, 2);
    assert_eq!(flipped, cells.to_vec());
}

#[test]
fn renders_a_small_grid_to_png_and_pgm() {
    let mut cells = vec![205u8; 40 * 40];
    for row in 0..40 {
        cells[row * 40 + 35] = 10; // a wall
        cells[row * 40 + 20] = 250; // a free beam
    }
    let snap = MapSnapshot::from_cells(40, 40, &cells, [-2.0f64, -2.0], 0.1, 1).unwrap();
    assert_eq!((snap.width, snap.height), (40, 40));
    assert!(snap.png.starts_with(&[0x89, b'P', b'N', b'G']));
    assert!(snap.gray.iter().any(|&g| g < 100));
    assert!(snap.gray.iter().any(|&g| g > 220));
    let pgm = snap.to_pgm();
    assert!(pgm.starts_with(b"P5\n40 40\n255\n"));
    assert_eq!(pgm.len(), b"P5\n40 40\n255\n".len() + 1600);
    let body = &pgm[b"P5\n40 40\n255\n".len()..];
    assert_eq!(body[35], 0);
    assert_eq!(body[20], 254);
    assert_eq!(body[0], 205);
}

#[test]
fn pgm_levels_follow_map_server() {
    let snap = MapSnapshot {
        version: 0,
        width: 5,
        height: 1,
        origin: [0.0f64, 0.0],
        resolution: 1.0,
        gray: vec![0, 89, 90, 205, 206],
        png: Vec::new(),
    };
    assert_eq!(snap.to_pgm(), b"P5\n5 1\n255\n\x00\x00\xcd\xcd\xfe".to_vec());
}

#[test]
fn encoder_sizes_that_fit() {
    assert!(gray8_fits(40, 40));
    assert!(gray8_fits(0, u32::MAX));
    assert!(gray8_fits(u32::MAX, 0));
    assert!(gray8_fits(65_535, 65_536));
    assert!(!gray8_fits(u32::MAX, u32::MAX));
}

#[test]
fn png_needs_a_nonempty_image() {
    assert_eq!(encode_png(0, 3, &[]), Err(MapError::Png));
    assert_eq!(encode_png(2, 2, &[1, 2, 3]), Err(MapError::Png));
    let png = encode_png(2, 1, &[0, 255]).unwrap();
    assert_eq!(&png[..8], &[137, 80, 78, 71, 13, 10, 26, 10]);
    assert!(matches!(
        MapSnapshot::from_cells(0, 0, &[], [0.0f64, 0.0], 0.05, 1),
        Err(MapError::Png)
    ));
}

#[test]
fn decimation_keeps_at_most_max_evenly_spaced_points() {
    assert_eq!(decimation_stride(1000, 240), 5);
    let idx = decimation_indices(1000, 240);
    assert_eq!(idx.len(), 200);
    assert_eq!(idx[1], 5);
    assert_eq!(decimation_stride(500, 240), 3);
    assert_eq!(decimation_indices(500, 240).len(), 167);
    assert_eq!(decimation_indices(10, 4), vec![0, 3, 6, 9]);
    assert_eq!(decimation_indices(5, 3), vec![0, 2, 4]);
    assert_eq!(decimation_indices(3, 240), vec![0, 1, 2]);
    assert_eq!(decimation_indices(12, 4), vec![0, 3, 6, 9]);
    assert_eq!(decimation_indices(5, 0), vec![0]);
    assert!(decimation_indices(0, 4).is_empty());
    for len in 0..60usize {
        for max in 0..12usize {
            let n = decimation_indices(len, max).len();
            assert!(n <= max.max(1));
            assert_eq!(len > 0, n > 0);
        }
    }
}

#[test]
fn maps_every_n_scans_and_a_summary_every_thirty_maps() {
    let tuning = WorkerTuning::from_slam(&SlamTuning::default());
    assert_eq!(tuning.map_every_scans, 10);
    let mut p = WorkerProgress::new();
    let mut maps = 0;
    let mut summaries = 0;
    for _ in 0..600 {
        let o = p.after_scan(tuning);
        if o.render_map {
            maps += 1;
        }
        if o.log_summary {
            summaries += 1;
        }
    }
    assert_eq!((p.processed, p.map_version, maps, summaries), (600, 60, 60, 2));
    let mut q = WorkerProgress::new();
    let every = WorkerTuning { map_every_scans: 0, ws_scan_points: 1 };
    assert!(q.after_scan(every).render_map);
    q.processed = u32::MAX;
    q.after_scan(every);
    assert_eq!(q.processed, 0);
}
