use mondrian::commands::MondrianMessage;
use mondrian::tray::{
    menu_message, pause_flag_of, tray_update, TrayUpdate, PAUSE_DISABLED, PAUSE_ENABLED, PAUSE_TOGGLED, PAUSE_UNSET,
};

#[test]
fn pause_messages_set_the_flag() {
    assert_eq!(pause_flag_of(Some(true)), PAUSE_ENABLED);
    assert_eq!(pause_flag_of(Some(false)), PAUSE_DISABLED);
    assert_eq!(pause_flag_of(None), PAUSE_TOGGLED);
}

#[test]
fn flag_sets_the_pause_item() {
    assert_eq!(tray_update(PAUSE_ENABLED, false), TrayUpdate { checked: true, refresh: true });
    assert_eq!(tray_update(PAUSE_DISABLED, true), TrayUpdate { checked: false, refresh: true });
    assert_eq!(tray_update(PAUSE_TOGGLED, true), TrayUpdate { checked: false, refresh: true });
    assert_eq!(tray_update(PAUSE_TOGGLED, false), TrayUpdate { checked: true, refresh: true });
    assert_eq!(tray_update(PAUSE_UNSET, true), TrayUpdate { checked: true, refresh: false });
}

#[test]
fn menu_items_send_their_messages() {
    assert!(matches!(menu_message(&"PAUSE".to_string(), true), Some(MondrianMessage::Pause(Some(true)))));
    assert!(matches!(menu_message(&"RETILE".to_string(), false), Some(MondrianMessage::Retile)));
    assert!(matches!(menu_message(&"REFRESH_CONFIG".to_string(), false), Some(MondrianMessage::RefreshConfig)));
    assert!(matches!(menu_message(&"OPEN_LOG_FOLDER".to_string(), false), Some(MondrianMessage::OpenLogFolder)));
    assert!(matches!(menu_message(&"OPEN_CONFIG".to_string(), false), Some(MondrianMessage::OpenConfig)));
    assert!(matches!(menu_message(&"ABOUT".to_string(), false), Some(MondrianMessage::About)));
    assert!(matches!(menu_message(&"QUIT".to_string(), false), Some(MondrianMessage::Quit)));
    assert!(menu_message(&"quit".to_string(), false).is_none());
}
