use mondrian::monitor::{assign_monitor_ids, Monitor};

fn reported(handle: isize, hw_id: &str) -> Monitor {
    Monitor::from_info(handle, hw_id.to_string(), handle == 1, (0, 0, 1920, 1080), (0, 0, 1920, 1040), None)
}

#[test]
fn monitor_from_system_info() {
    let m = Monitor::from_info(7, "HW".to_string(), true, (-1920, 0, 0, 1080), (-1920, 0, 0, 1040), Some((-1920, 0)));
    assert_eq!(m.handle, 7);
    assert_eq!(m.id, "");
    assert_eq!(m.hw_id, "HW");
    assert!(m.primary);
    assert_eq!(m.resolution, (1920, 1080));
    assert_eq!(m.workspace, (1920, 1040));
    assert_eq!(m.offset, (-1920, 0));
    let m = reported(2, "X");
    assert_eq!(m.offset, (0, 0));
    assert!(!m.primary);
}

#[test]
fn monitor_ids_follow_hardware_id_order() {
    let monitors = vec![reported(1, "\\\\?\\DISPLAY#B"), reported(2, "\\\\?\\DISPLAY#A"), reported(3, "\\\\?\\DISPLAY#C")];
    let r = assign_monitor_ids(monitors);
    let got: Vec<(isize, String)> = r.iter().map(|m| (m.handle, m.id.clone())).collect();
    assert_eq!(
        got,
        vec![(2, "MONITOR1".to_string()), (1, "MONITOR2".to_string()), (3, "MONITOR3".to_string())]
    );
}

#[test]
fn monitor_ids_keep_the_order_of_equal_hardware_ids() {
    let monitors = vec![reported(1, "B"), reported(2, ""), reported(3, "B"), reported(4, "AB"), reported(5, "A")];
    let r = assign_monitor_ids(monitors);
    let handles: Vec<isize> = r.iter().map(|m| m.handle).collect();
    assert_eq!(handles, vec![2, 5, 4, 1, 3]);
    assert_eq!(r[4].id, "MONITOR5");
}

#[test]
fn monitor_ids_count_past_nine() {
    let monitors: Vec<Monitor> = (0..12).map(|i| reported(i, &format!("{:02}", i))).collect();
    let r = assign_monitor_ids(monitors);
    assert_eq!(r[9].id, "MONITOR10");
    assert_eq!(r[11].id, "MONITOR12");
    assert_eq!(r[11].handle, 11);
    assert!(assign_monitor_ids(vec![]).is_empty());
}
