use vstd::prelude::*;

use crate::commands::MondrianMessage;
use crate::containers::same_text;

verus! {

/// No change of the pause state is waiting for the tray.
pub const PAUSE_UNSET: u8 = 0;

/// The tray is to show that the application runs.
pub const PAUSE_DISABLED: u8 = 1;

/// The tray is to show that the application is paused.
pub const PAUSE_ENABLED: u8 = 2;

/// The tray is to switch the pause state it shows.
pub const PAUSE_TOGGLED: u8 = 3;

/// The flag a pause message leaves for the tray: pausing, resuming, or
/// switching when the message says neither.
pub fn pause_flag_of(pause: Option<bool>) -> (f: u8)
    ensures
        f == match pause {
            Some(true) => PAUSE_ENABLED,
            Some(false) => PAUSE_DISABLED,
            None => PAUSE_TOGGLED,
        },
{
    match pause {
        Some(p) => if p {
            PAUSE_ENABLED
        } else {
            PAUSE_DISABLED
        },
        None => PAUSE_TOGGLED,
    }
}

/// What the tray does with a waiting pause flag.
#[derive(Debug, Clone, Copy, PartialEq, Eq, Structural)]
pub struct TrayUpdate {
    /// Whether the pause item is checked afterwards.
    pub checked: bool,
    /// Whether the icon and tooltip are set again (to the paused form when
    /// the item is checked); the flag is then cleared.
    pub refresh: bool,
}

/// The pause item after the flag: checked when pausing, unchecked when
/// resuming, switched on a toggle, as it was otherwise; every flag but the
/// unset one refreshes the icon and tooltip.
pub fn tray_update(flag: u8, checked: bool) -> (u: TrayUpdate)
    ensures
        u.checked == (if flag == PAUSE_ENABLED {
            true
        } else if flag == PAUSE_DISABLED {
            false
        } else if flag == PAUSE_TOGGLED {
            !checked
        } else {
            checked
        }),
        u.refresh == (flag != PAUSE_UNSET),
{
    let c = if flag == PAUSE_ENABLED {
        true
    } else if flag == PAUSE_DISABLED {
        false
    } else if flag == PAUSE_TOGGLED {
        !checked
    } else {
        checked
    };
    TrayUpdate { checked: c, refresh: flag != PAUSE_UNSET }
}

/// The message a tray menu item sends, by the item's id; the pause item
/// sends the state of its check mark. Other ids send nothing.
pub open spec fn spec_menu_message(id: Seq<char>, pause_checked: bool) -> Option<MondrianMessage> {
    if id == "PAUSE"@ {
        Some(MondrianMessage::Pause(Some(pause_checked)))
    } else if id == "RETILE"@ {
        Some(MondrianMessage::Retile)
    } else if id == "REFRESH_CONFIG"@ {
        Some(MondrianMessage::RefreshConfig)
    } else if id == "OPEN_LOG_FOLDER"@ {
        Some(MondrianMessage::OpenLogFolder)
    } else if id == "OPEN_CONFIG"@ {
        Some(MondrianMessage::OpenConfig)
    } else if id == "ABOUT"@ {
        Some(MondrianMessage::About)
    } else if id == "QUIT"@ {
        Some(MondrianMessage::Quit)
    } else {
        None
    }
}

/// The message sent when the tray menu item `id` is chosen; after `Quit`
/// the tray stops.
pub fn menu_message(id: &String, pause_checked: bool) -> (r: Option<MondrianMessage>)
    ensures
        r == spec_menu_message(id@, pause_checked),
{
    if same_text(id, &"PAUSE".to_owned()) {
        Some(MondrianMessage::Pause(Some(pause_checked)))
    } else if same_text(id, &"RETILE".to_owned()) {
        Some(MondrianMessage::Retile)
    } else if same_text(id, &"REFRESH_CONFIG".to_owned()) {
        Some(MondrianMessage::RefreshConfig)
    } else if same_text(id, &"OPEN_LOG_FOLDER".to_owned()) {
        Some(MondrianMessage::OpenLogFolder)
    } else if same_text(id, &"OPEN_CONFIG".to_owned()) {
        Some(MondrianMessage::OpenConfig)
    } else if same_text(id, &"ABOUT".to_owned()) {
        Some(MondrianMessage::About)
    } else if same_text(id, &"QUIT".to_owned()) {
        Some(MondrianMessage::Quit)
    } else {
        None
    }
}

} // verus!
