use minivector::gfx::Point;
use minivector::quantize::{pack_point, quantize_points, unpack_point, MAX_LOOKUP_POINTS};

#[test]
fn pack_has_the_documented_layout() {
    // x = 960 of 1920 and y = 540 of 1080 both quantize to 8191.
    let packed = pack_point(960, 540, 1, 1920, 1080);
    assert_eq!(packed, (8191 << 18) | (8191 << 4) | 1);
}

#[test]
fn pack_extremes() {
    assert_eq!(pack_point(0, 0, 0, 1920, 1080), 0);
    // A coordinate at (or beyond) the screen extent clamps to full scale.
    assert_eq!(pack_point(1920, 1080, 1, 1920, 1080), (16383 << 18) | (16383 << 4) | 1);
    assert_eq!(pack_point(65535, 65535, 0, 1920, 1080), (16383 << 18) | (16383 << 4));
}

#[test]
fn round_trip_stays_within_quantization_error() {
    let (w, h) = (1920u32, 1080u32);
    for (x, y) in [(0u16, 0u16), (1, 1), (960, 540), (1919, 1079), (1920, 1080), (123, 997)] {
        let packed = pack_point(x, y, 1, w, h);
        let (ux, uy, power) = unpack_point(packed, w, h);
        assert_eq!(power, 1);
        // 14-bit quantization: never overshoots, and the loss is bounded
        // by one quantization step (screen extent / 16383) plus one.
        assert!(ux <= x as u32);
        assert!(uy <= y as u32);
        assert!((x as u32 - ux) as u64 * 16383 < w as u64 + 16383);
        assert!((y as u32 - uy) as u64 * 16383 < h as u64 + 16383);
    }
}

#[test]
fn round_trip_recovers_exactly_at_full_scale() {
    let (ux, uy, _) = unpack_point(pack_point(1920, 1080, 0, 1920, 1080), 1920, 1080);
    assert_eq!((ux, uy), (1920, 1080));
}

#[test]
fn point_count_beyond_cap_truncates_to_exactly_the_cap() {
    let points: Vec<Point> = (0..(MAX_LOOKUP_POINTS + 100))
        .map(|i| Point { x: (i % 1920) as u16, y: (i % 1080) as u16, power: 1 })
        .collect();
    let data = quantize_points(&points, 1920, 1080);
    assert_eq!(data.len(), MAX_LOOKUP_POINTS);
    // The entries kept are the first ones, in order.
    assert_eq!(data[0], pack_point(0, 0, 1, 1920, 1080));
    assert_eq!(
        data[MAX_LOOKUP_POINTS - 1],
        pack_point(
            ((MAX_LOOKUP_POINTS - 1) % 1920) as u16,
            ((MAX_LOOKUP_POINTS - 1) % 1080) as u16,
            1,
            1920,
            1080
        )
    );
}

#[test]
fn empty_point_list_yields_one_blank_entry() {
    let data = quantize_points(&Vec::new(), 1920, 1080);
    assert_eq!(data, vec![0]);
}

#[test]
fn quantize_points_packs_each_point_in_order() {
    let points = vec![
        Point { x: 10, y: 10, power: 1 },
        Point { x: 20, y: 20, power: 0 },
    ];
    let data = quantize_points(&points, 1920, 1080);
    assert_eq!(data.len(), 2);
    assert_eq!(data[0], pack_point(10, 10, 1, 1920, 1080));
    assert_eq!(data[1], pack_point(20, 20, 0, 1920, 1080));
}
