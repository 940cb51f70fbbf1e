//! What the tray shows and how it reacts to readings and menu choices.
use vstd::prelude::*;
use vstd::string::*;
use crate::battery::{label_text, Status};
use crate::settings::DisplayMode;

verus! {

/// Seconds between readings after a reading succeeded.
pub const POLL_INTERVAL_SECS: u64 = 30;

/// Seconds before trying again after a reading failed.
pub const RETRY_INTERVAL_SECS: u64 = 5;

/// How long the reader waits before the next reading (or a refresh request).
pub fn next_poll_delay_secs(reading_ok: bool) -> (secs: u64)
    ensures
        secs == (if reading_ok {
            POLL_INTERVAL_SECS
        } else {
            RETRY_INTERVAL_SECS
        }),
{
    if reading_ok {
        POLL_INTERVAL_SECS
    } else {
        RETRY_INTERVAL_SECS
    }
}

/// The tooltip: the model name, a dash, and the reading's label.
pub open spec fn tooltip_text(status: Status) -> Seq<char> {
    "MCHOSE K7 V2 Ultra+ — "@ + label_text(status)
}

/// The tooltip for a reading.
pub fn tooltip(status: Status) -> (text: String)
    ensures
        text@ == tooltip_text(status),
{
    let mut text = String::from_str("MCHOSE K7 V2 Ultra+ — ");
    let label = status.label();
    text.append(label.as_str());
    text
}

/// What the event loop does after a menu choice.
#[derive(Debug, Clone, Copy, PartialEq, Eq, Structural)]
pub enum Action {
    Nothing,
    Refresh,
    Quit,
}

/// The menu item that was chosen.
#[derive(Debug, Clone, Copy, PartialEq, Eq, Structural)]
pub enum MenuChoice {
    Refresh,
    Quit,
    Mode(DisplayMode),
    Other,
}

/// The check mark and availability of a display-mode menu item.
#[derive(Debug, Clone, Copy, PartialEq, Eq, Structural)]
pub struct ItemState {
    pub checked: bool,
    pub enabled: bool,
}

/// The current mode's item is checked and cannot be chosen again; the
/// other is unchecked and can be chosen.
pub fn mode_item(item: DisplayMode, current: DisplayMode) -> (state: ItemState)
    ensures
        state.checked == (item == current),
        state.enabled == (item != current),
{
    ItemState { checked: item == current, enabled: item != current }
}

/// The reading shown and the display mode of the tray.
#[derive(Debug, Clone, Copy, PartialEq, Eq, Structural)]
pub struct TrayState {
    pub status: Status,
    pub mode: DisplayMode,
}

impl TrayState {
    /// The tray before the first reading.
    pub fn new(mode: DisplayMode) -> (state: Self)
        ensures
            state.status == Status::Unavailable,
            state.mode == mode,
    {
        TrayState { status: Status::Unavailable, mode }
    }

    /// Shows a reading; a failed reading shows as unavailable, never as
    /// the last percentage.
    pub fn apply_reading(&mut self, reading: &Result<Status, String>)
        ensures
            final(self).mode == old(self).mode,
            final(self).status == match reading {
                Ok(status) => *status,
                Err(_) => Status::Unavailable,
            },
    {
        self.status = match reading {
            Ok(status) => *status,
            Err(_) => Status::Unavailable,
        };
    }

    /// Switches to a display mode; returns whether it changed, in which case
    /// the menu, the saved preference and the icon are updated.
    pub fn select_mode(&mut self, mode: DisplayMode) -> (changed: bool)
        ensures
            changed == (mode != old(self).mode),
            final(self).mode == mode,
            final(self).status == old(self).status,
    {
        if mode == self.mode {
            return false;
        }
        self.mode = mode;
        true
    }

    /// Reacts to a menu choice: refresh and quit are passed on, a display
    /// mode is selected. Also returns whether the mode changed.
    pub fn handle_menu(&mut self, choice: MenuChoice) -> (reaction: (Action, bool))
        ensures
            final(self).status == old(self).status,
            match choice {
                MenuChoice::Refresh => reaction == (Action::Refresh, false) && final(self).mode
                    == old(self).mode,
                MenuChoice::Quit => reaction == (Action::Quit, false) && final(self).mode == old(
                    self,
                ).mode,
                MenuChoice::Mode(mode) => reaction == (Action::Nothing, mode != old(self).mode)
                    && final(self).mode == mode,
                MenuChoice::Other => reaction == (Action::Nothing, false) && final(self).mode == old(
                    self,
                ).mode,
            },
    {
        match choice {
            MenuChoice::Refresh => (Action::Refresh, false),
            MenuChoice::Quit => (Action::Quit, false),
            MenuChoice::Mode(mode) => {
                let changed = self.select_mode(mode);
                (Action::Nothing, changed)
            },
            MenuChoice::Other => (Action::Nothing, false),
        }
    }
}

} // verus!
