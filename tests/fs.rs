use pleb_ui::fs::{decimal_text, parse_level, Error, FsBrightness};

#[test]
fn new_joins_file_names() {
    let b = FsBrightness::new("/sys/class/backlight/intel_backlight");
    assert_eq!(b.max_path(), "/sys/class/backlight/intel_backlight/max_brightness");
    assert_eq!(b.curr_path(), "/sys/class/backlight/intel_backlight/brightness");
    let b = FsBrightness::new("/sys/class/backlight/acpi_video0/");
    assert_eq!(b.max_path(), "/sys/class/backlight/acpi_video0/max_brightness");
    let b = FsBrightness::new("");
    assert_eq!(b.curr_path(), "brightness");
    assert_eq!(b.min(), 0);
}

#[test]
fn parse_level_trims_and_parses() {
    assert_eq!(parse_level(b"976\n").ok(), Some(976));
    assert_eq!(parse_level(b"  40 \t\r\n").ok(), Some(40));
    assert_eq!(parse_level(b"0").ok(), Some(0));
    assert_eq!(parse_level(b"9223372036854775807").ok(), Some(i64::MAX));
}

#[test]
fn parse_level_rejects_non_numeric() {
    let texts: [&[u8]; 10] =
        [b"", b"  \n", b"abc", b"12 3", b"1e", b"9223372036854775808", b"4x", b"e5", b"1.2.3", b"3.x"];
    for text in texts {
        assert!(matches!(parse_level(text), Err(Error::Parse)), "{:?}", text);
    }
}

#[test]
fn read_level_passes_io_errors() {
    let e = std::io::Error::new(std::io::ErrorKind::NotFound, "gone");
    assert!(matches!(FsBrightness::read_level(Err(e)), Err(Error::Io(_))));
    assert_eq!(FsBrightness::read_level(Ok(b"120\n".to_vec())).ok(), Some(120));
    assert!(matches!(FsBrightness::read_level(Ok(b"x".to_vec())), Err(Error::Parse)));
}

#[test]
fn set_out_of_range_writes_nothing() {
    let b = FsBrightness::new("/tmp/bl");
    assert!(matches!(b.set(101, Ok(100)), Err(Error::OutOfRange)));
    assert!(matches!(b.set(-1, Ok(100)), Err(Error::OutOfRange)));
    assert!(matches!(b.set(5, Err(Error::Parse)), Err(Error::Parse)));
}

#[test]
fn set_then_read_gives_value() {
    let b = FsBrightness::new("/tmp/bl");
    for v in [0i64, 1, 9, 10, 25, 100, 976] {
        let text = b.set(v, Ok(976)).ok().unwrap();
        assert_eq!(text, v.to_string().into_bytes());
        assert_eq!(FsBrightness::read_level(Ok(text)).ok(), Some(v));
    }
}

#[test]
fn decimal_text_digits() {
    assert_eq!(decimal_text(0), b"0".to_vec());
    assert_eq!(decimal_text(1234567890), b"1234567890".to_vec());
    assert_eq!(decimal_text(u64::MAX), u64::MAX.to_string().into_bytes());
}

#[test]
fn parse_level_drops_fraction() {
    assert_eq!(parse_level(b"40.5\n").ok(), Some(40));
    assert_eq!(parse_level(b" 12. ").ok(), Some(12));
    assert_eq!(parse_level(b"7.999").ok(), Some(7));
    assert_eq!(parse_level(b"9223372036854775807.9").ok(), Some(i64::MAX));
}

#[test]
fn parse_level_signs_exponents_and_points() {
    assert_eq!(parse_level(b"+40").ok(), Some(40));
    assert_eq!(parse_level(b"-4").ok(), Some(-4));
    assert_eq!(parse_level(b"-0.5").ok(), Some(0));
    assert_eq!(parse_level(b".5").ok(), Some(0));
    assert_eq!(parse_level(b"4e1").ok(), Some(40));
    assert_eq!(parse_level(b"1.5e1").ok(), Some(15));
    assert_eq!(parse_level(b"12e-1").ok(), Some(1));
    assert_eq!(parse_level(b"1E+2\n").ok(), Some(100));
    assert_eq!(parse_level(b"9.223372036854775807e18").ok(), Some(i64::MAX));
    assert_eq!(parse_level(b"0e999999999999999999999999").ok(), Some(0));
    assert_eq!(parse_level(b"5e-99999999999999999999999").ok(), Some(0));
}

#[test]
fn parse_level_rejects_unrepresentable() {
    let texts: [&[u8]; 8] = [b"1e19", b"1e400", b"7e99999999999999999999999", b"inf", b"NaN", b"+", b".", b"-e1"];
    for text in texts {
        assert!(matches!(parse_level(text), Err(Error::Parse)), "{:?}", text);
    }
}
