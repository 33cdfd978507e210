use pleb_ui::notify::{volume_status, Volume};
use pleb_ui::range::level_from_percent;
use pleb_ui::volume::{AlsaError, Mixer};

fn element(volume: i64, has_switch: bool, switch_on: bool) -> Mixer {
    Mixer::from_element(0, 65536, volume, true, has_switch, switch_on).unwrap()
}

#[test]
fn from_element_checks_range_order() {
    assert_eq!(Mixer::from_element(5, 4, 0, true, true, true), Err(AlsaError::VolumeRange));
    let m = Mixer::from_element(-10, -10, -10, false, false, false).unwrap();
    assert_eq!(m.volume_range(), (-10, -10));
    assert_eq!(m, Mixer { min: -10, max: -10, volume: -10, mono: false, has_switch: false, switch_on: false });
}

#[test]
fn change_volume_clip_up_ten_percent() {
    let mut m = element(32768, true, true);
    m.change_volume_clip(level_from_percent(10));
    assert_eq!(m.volume_raw(), 39321);
    assert_eq!(volume_status(&m), Volume::Percent(60));
}

#[test]
fn change_volume_clip_stops_at_top_and_bottom() {
    let mut m = element(65000, true, true);
    m.change_volume_clip(level_from_percent(10));
    assert_eq!(m.volume_raw(), 65536);
    let mut m = element(100, true, true);
    m.change_volume_clip(level_from_percent(-10));
    assert_eq!(m.volume_raw(), 0);
}

#[test]
fn volume_raw_and_level() {
    let mut m = element(0, true, true);
    assert_eq!(m.volume_range(), (0, 65536));
    m.set_volume_raw(16384);
    assert_eq!(m.volume(), level_from_percent(25));
    m.set_volume(level_from_percent(75));
    assert_eq!(m.volume_raw(), 49152);
    m.change_volume_raw(-152);
    assert_eq!(m.volume_raw(), 49000);
    m.change_volume(level_from_percent(10));
    assert_eq!(m.volume_raw(), 55553);
    assert!(m.is_mono());
}

#[test]
fn mute_unmute_and_toggle() {
    let mut m = element(100, true, true);
    assert!(!m.is_muted());
    assert_eq!(m.mute(), Ok(()));
    assert!(m.is_muted());
    assert_eq!(volume_status(&m), Volume::Muted);
    assert_eq!(m.unmute(), Ok(()));
    assert!(!m.is_muted());
    assert_eq!(m.toggle_mute(), Ok(()));
    assert!(m.is_muted());
    assert_eq!(m.toggle_mute(), Ok(()));
    assert!(!m.is_muted());
    assert_eq!(m, element(100, true, true));
}

#[test]
fn mute_requests_fail_without_switch() {
    let before = element(32768, false, true);
    let mut m = before;
    assert!(!m.can_mute());
    assert!(!m.is_muted());
    assert_eq!(m.mute(), Err(()));
    assert_eq!(m.unmute(), Err(()));
    assert_eq!(m.toggle_mute(), Err(()));
    assert_eq!(m.toggle_mute(), Err(()));
    assert_eq!(m, before);
    assert_eq!(volume_status(&m), Volume::Percent(50));
}

#[test]
fn check_names_rejects_nul() {
    assert_eq!(Mixer::check_names("default", "Master"), Ok(()));
    assert_eq!(Mixer::check_names("def\0ault", "Master"), Err(AlsaError::CardStrContainsNull));
    assert_eq!(Mixer::check_names("default", "Mas\0ter"), Err(AlsaError::NameStrContainsNull));
    assert_eq!(Mixer::check_names("\0", "\0"), Err(AlsaError::CardStrContainsNull));
    assert_eq!(Mixer::check_names("", ""), Ok(()));
}
