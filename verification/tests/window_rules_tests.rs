use mondrian::geometry::Area;
use mondrian::window_rules::{
    executable_name, get_borders, get_visible_area, get_window_box, is_fullscreen, is_program_manager_window,
    is_user_manageable_window, WindowFacts,
};

#[test]
fn executable_name_is_the_last_path_segment() {
    assert_eq!(executable_name(&"C:\\Windows\\explorer.exe".to_string()), "explorer.exe");
    assert_eq!(executable_name(&"app.exe".to_string()), "app.exe");
    assert_eq!(executable_name(&"C:\\dir\\".to_string()), "");
    assert_eq!(executable_name(&"".to_string()), "");
    assert_eq!(executable_name(&"C:\\Programmi\\Überweisung.exe".to_string()), "Überweisung.exe");
}

fn facts() -> WindowFacts {
    WindowFacts {
        valid: true,
        exe_name: Some("notepad.exe".to_string()),
        no_owner: true,
        visible: true,
        iconic: false,
        popup: false,
        cloaked: false,
        title_bar_invisible: false,
    }
}

#[test]
fn manageable_windows() {
    assert!(is_user_manageable_window(&facts(), true, true, true));
    let mut f = facts();
    f.exe_name = Some("mondrian.exe".to_string());
    assert!(!is_user_manageable_window(&f, false, false, false));
    let mut f = facts();
    f.exe_name = None;
    assert!(!is_user_manageable_window(&f, false, false, false));
    let mut f = facts();
    f.valid = false;
    assert!(!is_user_manageable_window(&f, false, false, false));
    let mut f = facts();
    f.no_owner = false;
    assert!(!is_user_manageable_window(&f, false, false, false));
    let mut f = facts();
    f.visible = false;
    assert!(!is_user_manageable_window(&f, true, false, false));
    assert!(is_user_manageable_window(&f, false, false, false));
    let mut f = facts();
    f.iconic = true;
    assert!(!is_user_manageable_window(&f, false, true, false));
    assert!(is_user_manageable_window(&f, false, false, false));
    let mut f = facts();
    f.popup = true;
    assert!(is_user_manageable_window(&f, false, false, false));
    f.cloaked = true;
    assert!(!is_user_manageable_window(&f, false, false, false));
    let mut f = facts();
    f.title_bar_invisible = true;
    assert!(!is_user_manageable_window(&f, false, false, true));
    assert!(is_user_manageable_window(&f, false, false, false));
}

#[test]
fn program_manager_window() {
    assert!(is_program_manager_window(&Some("explorer.exe".to_string()), &"Progman".to_string()));
    assert!(!is_program_manager_window(&Some("explorer.exe".to_string()), &"Shell_TrayWnd".to_string()));
    assert!(!is_program_manager_window(&None, &"Progman".to_string()));
}

#[test]
fn window_box_and_visible_area() {
    assert_eq!(get_window_box([10, 20, 110, 70]), [10, 20, 100, 50]);
    assert_eq!(get_visible_area([10, 20, 110, 70]), Area::new(10, 20, 100, 50));
    assert_eq!(get_visible_area([10, 20, 0, 200000]), Area::new(10, 20, 0, 65535));
}

#[test]
fn invisible_borders() {
    let area = Area::new(0, 0, 116, 108);
    let visible = Area::new(8, 0, 100, 100);
    assert_eq!(get_borders(area, visible), (8, 0, 8, 8));
}

#[test]
fn fullscreen_window() {
    assert!(is_fullscreen([0, 0, 1920, 1080], [0, 0, 1920, 1080]));
    assert!(!is_fullscreen([0, 0, 1920, 1079], [0, 0, 1920, 1080]));
}

use mondrian::window_rules::is_user_managable_window;

#[test]
fn earlier_manageable_test() {
    assert!(is_user_managable_window(&facts(), true, true));
    let mut f = facts();
    f.exe_name = Some("mondrian.exe".to_string());
    assert!(is_user_managable_window(&f, true, true));
    f.popup = true;
    assert!(!is_user_managable_window(&f, false, false));
    let mut f = facts();
    f.title_bar_invisible = true;
    assert!(!is_user_managable_window(&f, false, false));
    let mut f = facts();
    f.iconic = true;
    assert!(!is_user_managable_window(&f, false, true));
    assert!(is_user_managable_window(&f, false, false));
}
