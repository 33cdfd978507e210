use pleb_ui::range::level_from_percent;
use pleb_ui::xcb::{
    backlight_atom, check_version, decode_range, decode_value, Display, OutputProbe,
    XcbBrightness, XcbError, ATOM_NONE,
};

#[test]
fn version_must_be_one_two_or_later() {
    assert_eq!(check_version(1, 2), Ok(()));
    assert_eq!(check_version(1, 6), Ok(()));
    assert_eq!(check_version(1, 1), Err(XcbError::Version(1, 1)));
    assert_eq!(check_version(2, 0), Err(XcbError::Version(2, 0)));
    assert_eq!(check_version(0, 9), Err(XcbError::Version(0, 9)));
}

#[test]
fn atom_resolution_prefers_modern_then_legacy() {
    assert_eq!(backlight_atom(301, None), Ok(301));
    assert_eq!(backlight_atom(301, Some(77)), Ok(301));
    assert_eq!(backlight_atom(ATOM_NONE, Some(77)), Ok(77));
    assert_eq!(backlight_atom(ATOM_NONE, Some(ATOM_NONE)), Err(XcbError::NoBacklight));
    assert_eq!(backlight_atom(ATOM_NONE, None), Err(XcbError::NoBacklight));
}

#[test]
fn property_value_needs_one_item_of_format_32() {
    assert_eq!(decode_value(1, 32, &[42]), Some(42));
    assert_eq!(decode_value(2, 32, &[42, 43]), None);
    assert_eq!(decode_value(1, 8, &[42]), None);
    assert_eq!(decode_value(0, 32, &[]), None);
}

#[test]
fn range_needs_two_ordered_bounds() {
    assert_eq!(decode_range(true, &[0, 100]), Some((0, 100)));
    assert_eq!(decode_range(false, &[0, 100]), None);
    assert_eq!(decode_range(true, &[0]), None);
    assert_eq!(decode_range(true, &[0, 50, 100]), None);
    assert_eq!(decode_range(true, &[100, 0]), None);
}

fn probe(output: u32, current: i32, range: bool, valid_values: Vec<i32>) -> OutputProbe {
    OutputProbe { output, current: Some(current), range, valid_values }
}

#[test]
fn connect_keeps_usable_outputs_in_order() {
    let probes = vec![
        probe(60, 5, false, vec![0, 10]),
        OutputProbe { output: 63, current: None, range: true, valid_values: vec![0, 100] },
        probe(61, 40, true, vec![0, 100]),
        probe(62, 3, true, vec![0, 7]),
    ];
    let b = XcbBrightness::connect(9, &probes);
    assert_eq!(b.atom(), 9);
    assert_eq!(
        b.displays(),
        &vec![
            Display { output: 61, min: 0, max: 100, current: 40 },
            Display { output: 62, min: 0, max: 7, current: 3 },
        ]
    );
    assert_eq!(b.target(), Some(Display { output: 61, min: 0, max: 100, current: 40 }));
    assert_eq!(b.current(Some(40)), Ok(level_from_percent(40)));
    assert_eq!(b.current(None), Err(XcbError::NoOutput));
    assert_eq!(b.set(level_from_percent(25)), Ok(25));
    assert_eq!((b.min(), b.max()), (0, level_from_percent(100)));
}

#[test]
fn no_output_fails_every_operation() {
    let b = XcbBrightness::connect(9, &vec![probe(60, 5, true, vec![1])]);
    assert!(b.displays().is_empty());
    assert_eq!(b.target(), None);
    assert_eq!(b.current(Some(3)), Err(XcbError::NoOutput));
    assert_eq!(b.set(0), Err(XcbError::NoOutput));
}

#[test]
fn set_maps_level_into_native_range() {
    let b = XcbBrightness::connect(9, &vec![probe(60, 500, true, vec![100, 1100])]);
    assert_eq!(b.set(level_from_percent(50)), Ok(600));
    assert_eq!(b.set(0), Ok(100));
    assert_eq!(b.set(level_from_percent(100)), Ok(1100));
    assert_eq!(b.current(Some(600)), Ok(level_from_percent(50)));
}
