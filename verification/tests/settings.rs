use mchose_tray::settings::DisplayMode;

#[test]
fn preferences_round_trip_and_reject_invalid_values() {
    for mode in [DisplayMode::Percentage, DisplayMode::Battery] {
        assert_eq!(DisplayMode::parse(mode.as_str()), Some(mode));
    }
    assert_eq!(DisplayMode::parse("garbage"), None);
    assert_eq!(
        DisplayMode::parse(" battery\r\n"),
        Some(DisplayMode::Battery)
    );
}

#[test]
fn saved_contents_fall_back_to_percentage() {
    assert_eq!(DisplayMode::from_saved(None), DisplayMode::Percentage);
    assert_eq!(DisplayMode::from_saved(Some("battery\n")), DisplayMode::Battery);
    assert_eq!(DisplayMode::from_saved(Some("Battery")), DisplayMode::Percentage);
    assert_eq!(DisplayMode::from_saved(Some("")), DisplayMode::Percentage);
    assert_eq!(DisplayMode::default(), DisplayMode::Percentage);
}

#[test]
fn unicode_white_space_is_trimmed() {
    assert_eq!(
        DisplayMode::parse("\u{3000}\u{a0}percentage\u{2029}"),
        Some(DisplayMode::Percentage)
    );
    assert_eq!(DisplayMode::parse("bat tery"), None);
    assert_eq!(DisplayMode::parse("   "), None);
}
