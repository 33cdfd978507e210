use pleb_ui::range::{
    change_n_clip, clamp, level_from_native, native_from_level, native_step_of, FULL_SCALE,
    level_from_percent,
};

#[test]
fn clamp_holds_value_to_range() {
    assert_eq!(clamp(50, 0, 100), 50);
    assert_eq!(clamp(-3, 0, 100), 0);
    assert_eq!(clamp(101, 0, 100), 100);
}

#[test]
fn change_n_clip_down_fifteen_from_forty() {
    assert_eq!(change_n_clip(0, 100, 40, -15), 25);
}

#[test]
fn change_n_clip_clamps_at_both_ends() {
    assert_eq!(change_n_clip(0, 100, 95, 10), 100);
    assert_eq!(change_n_clip(0, 100, 5, -10), 0);
    assert_eq!(change_n_clip(10, 20, 15, i64::MAX), 20);
    assert_eq!(change_n_clip(10, 20, 15, i64::MIN), 10);
}

#[test]
fn change_n_clip_in_range_sum_is_exact() {
    for current in 0..=100i64 {
        for delta in -120..=120i64 {
            let r = change_n_clip(0, 100, current, delta);
            assert!(r >= 0 && r <= 100);
            if current + delta >= 0 && current + delta <= 100 {
                assert_eq!(r, current + delta);
            }
        }
        assert_eq!(change_n_clip(0, 100, current, 0), current);
    }
}

#[test]
fn level_of_half_range() {
    assert_eq!(level_from_native(32768, 0, 65536), level_from_percent(50));
    assert_eq!(native_from_level(level_from_percent(50), 0, 65536), 32768);
    assert_eq!(level_from_native(25, 0, 100), level_from_percent(25));
}

#[test]
fn level_ends_and_outside_values() {
    assert_eq!(level_from_native(0, 0, 976), 0);
    assert_eq!(level_from_native(976, 0, 976), FULL_SCALE);
    assert_eq!(level_from_native(2000, 0, 976), FULL_SCALE);
    assert_eq!(level_from_native(-5, 0, 976), 0);
    assert_eq!(level_from_native(7, 7, 7), 0);
    assert_eq!(native_from_level(-1, 10, 20), 10);
    assert_eq!(native_from_level(i64::MAX, 10, 20), 20);
    assert_eq!(native_from_level(level_from_percent(50), 10, 20), 15);
}

#[test]
fn level_round_trip_within_one_unit() {
    let ranges = [
        (0i64, 65536i64),
        (0, 976),
        (-50, 50),
        (3, 4),
        (0, 4_000_000_000),
        (-2_000_000_000, 2_000_000_000),
        (i32::MIN as i64, i32::MAX as i64),
        (i64::MIN, i64::MAX),
        (i64::MIN, 0),
    ];
    for &(min, max) in &ranges {
        let span = (max as i128 - min as i128) as u128;
        let stride = if span > 100_000 { (span / 50_000) as i128 } else { 1 };
        let mut vs: Vec<i64> = Vec::new();
        let mut v = min as i128;
        while v <= max as i128 {
            vs.push(v as i64);
            v += stride;
        }
        for k in 0..5i128 {
            vs.push((min as i128 + k).min(max as i128) as i64);
            vs.push((max as i128 - k).max(min as i128) as i64);
        }
        for v in vs {
            let back = native_from_level(level_from_native(v, min, max), min, max);
            let diff = (back as i128 - v as i128).abs();
            assert!(diff <= 1, "{} {} {} {}", min, max, v, back);
        }
    }
}

#[test]
fn wide_ranges_keep_small_values() {
    assert_eq!(native_from_level(level_from_native(3, 0, 4_000_000_000), 0, 4_000_000_000), 3);
    let (min, max) = (-2_000_000_000i64, 2_000_000_000i64);
    let back = native_from_level(level_from_native(-1_999_999_997, min, max), min, max);
    assert_eq!(back, -1_999_999_997);
}

#[test]
fn native_step_of_ten_percent() {
    assert_eq!(native_step_of(level_from_percent(10), 0, 65536), 6553);
    assert_eq!(native_step_of(level_from_percent(-10), 0, 65536), -6553);
    assert_eq!(native_step_of(level_from_percent(10), 5, 5), 0);
}

#[test]
fn native_from_level_truncates() {
    assert_eq!(native_from_level(level_from_percent(50), 0, 3), 1);
    assert_eq!(native_from_level(level_from_percent(99), 0, 100), 99);
    assert_eq!(native_from_level(level_from_percent(33), 0, 10), 3);
}

#[test]
fn level_from_percent_ends() {
    assert_eq!(level_from_percent(0), 0);
    assert_eq!(level_from_percent(100), FULL_SCALE);
    assert_eq!(level_from_percent(250), FULL_SCALE);
    assert_eq!(level_from_percent(-100), -FULL_SCALE);
    assert_eq!(level_from_percent(i64::MIN), -FULL_SCALE);
    assert_eq!(level_from_percent(-15), -level_from_percent(15));
}
