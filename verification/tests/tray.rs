use mchose_tray::battery::Status;
use mchose_tray::settings::DisplayMode;
use mchose_tray::tray::{
    mode_item, next_poll_delay_secs, tooltip, Action, ItemState, MenuChoice, TrayState,
};

#[test]
fn failed_reading_shows_unavailable() {
    let mut state = TrayState::new(DisplayMode::Battery);
    assert_eq!(state.status, Status::Unavailable);
    let battery = Status::Battery {
        percent: 60,
        charging: false,
    };
    state.apply_reading(&Ok(battery));
    assert_eq!(state.status, battery);
    state.apply_reading(&Err("gone".to_string()));
    assert_eq!(state.status, Status::Unavailable);
    assert_eq!(state.mode, DisplayMode::Battery);
}

#[test]
fn menu_choices() {
    let mut state = TrayState::new(DisplayMode::Percentage);
    assert_eq!(state.handle_menu(MenuChoice::Refresh), (Action::Refresh, false));
    assert_eq!(state.handle_menu(MenuChoice::Quit), (Action::Quit, false));
    assert_eq!(
        state.handle_menu(MenuChoice::Mode(DisplayMode::Percentage)),
        (Action::Nothing, false)
    );
    assert_eq!(
        state.handle_menu(MenuChoice::Mode(DisplayMode::Battery)),
        (Action::Nothing, true)
    );
    assert_eq!(state.mode, DisplayMode::Battery);
    assert_eq!(
        state.handle_menu(MenuChoice::Mode(DisplayMode::Battery)),
        (Action::Nothing, false)
    );
    assert_eq!(state.handle_menu(MenuChoice::Other), (Action::Nothing, false));
}

#[test]
fn current_mode_item_is_checked_and_disabled() {
    assert_eq!(
        mode_item(DisplayMode::Battery, DisplayMode::Battery),
        ItemState {
            checked: true,
            enabled: false
        }
    );
    assert_eq!(
        mode_item(DisplayMode::Percentage, DisplayMode::Battery),
        ItemState {
            checked: false,
            enabled: true
        }
    );
}

#[test]
fn tooltip_and_delays() {
    assert_eq!(
        tooltip(Status::Battery {
            percent: 5,
            charging: true
        }),
        "MCHOSE K7 V2 Ultra+ — 5% · Charging"
    );
    assert_eq!(next_poll_delay_secs(true), 30);
    assert_eq!(next_poll_delay_secs(false), 5);
}
